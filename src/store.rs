//! An in-memory relational store for decks and cards. It keeps the
//! storage-level guarantees of the schema: ids are assigned by an
//! auto-increment counter and never reused, every card's `deck_id` names a
//! stored deck, and deleting a deck deletes its cards.
use crate::error::StorageError;
use crate::models::{card, deck};
use vstd::prelude::*;

verus! {

broadcast use vstd::seq_lib::group_filter_ensures;

/// Whether `key` strictly increases along `s`.
pub open spec fn increasing<A>(s: Seq<A>, key: spec_fn(A) -> int) -> bool {
    forall|i: int, j: int| 0 <= i < j < s.len() ==> key(#[trigger] s[i]) < key(#[trigger] s[j])
}

pub open spec fn deck_key() -> spec_fn(deck::Model) -> int {
    |d: deck::Model| d.id as int
}

pub open spec fn card_key() -> spec_fn(card::Model) -> int {
    |c: card::Model| c.id as int
}

/// Keeps the decks whose id is not `id`.
pub open spec fn deck_other_than(id: i32) -> spec_fn(deck::Model) -> bool {
    |d: deck::Model| d.id != id
}

/// Keeps the cards whose id is not `id`.
pub open spec fn card_other_than(id: i32) -> spec_fn(card::Model) -> bool {
    |c: card::Model| c.id != id
}

/// Keeps the cards that belong to deck `deck_id`.
pub open spec fn card_in_deck(deck_id: i32) -> spec_fn(card::Model) -> bool {
    |c: card::Model| c.deck_id == deck_id
}

/// Keeps the cards that do not belong to deck `deck_id`.
pub open spec fn card_outside_deck(deck_id: i32) -> spec_fn(card::Model) -> bool {
    |c: card::Model| c.deck_id != deck_id
}

/// Every element of a filtered sequence is an element of the sequence.
pub proof fn lemma_filter_subset<A>(s: Seq<A>, p: spec_fn(A) -> bool)
    ensures
        forall|k: int| 0 <= k < s.filter(p).len() ==> s.contains(#[trigger] s.filter(p)[k]),
    decreases s.len(),
{
    reveal(Seq::filter);
    if s.len() > 0 {
        let rest = s.drop_last();
        lemma_filter_subset(rest, p);
        assert forall|k: int| 0 <= k < s.filter(p).len() implies s.contains(
            #[trigger] s.filter(p)[k],
        ) by {
            if k < rest.filter(p).len() {
                let x = rest.filter(p)[k];
                assert(rest.contains(x));
                let j = choose|j: int| 0 <= j < rest.len() && rest[j] == x;
                assert(s[j] == x);
            } else {
                assert(s[s.len() - 1] == s.filter(p)[k]);
            }
        }
    }
}

/// Filtering keeps a strictly increasing key strictly increasing.
pub proof fn lemma_filter_increasing<A>(s: Seq<A>, p: spec_fn(A) -> bool, key: spec_fn(A) -> int)
    requires
        increasing(s, key),
    ensures
        increasing(s.filter(p), key),
    decreases s.len(),
{
    reveal(Seq::filter);
    if s.len() > 0 {
        let rest = s.drop_last();
        assert(increasing(rest, key)) by {
            assert forall|i: int, j: int| 0 <= i < j < rest.len() implies key(#[trigger] rest[i])
                < key(#[trigger] rest[j]) by {
                assert(rest[i] == s[i] && rest[j] == s[j]);
            }
        }
        lemma_filter_increasing(rest, p, key);
        lemma_filter_subset(rest, p);
        let sub = rest.filter(p);
        if p(s.last()) {
            let out = sub.push(s.last());
            assert forall|i: int, j: int| 0 <= i < j < out.len() implies key(#[trigger] out[i])
                < key(#[trigger] out[j]) by {
                if j == out.len() - 1 {
                    assert(rest.contains(sub[i]));
                    let m = choose|m: int| 0 <= m < rest.len() && rest[m] == sub[i];
                    assert(s[m] == sub[i]);
                } else {
                    assert(out[i] == sub[i] && out[j] == sub[j]);
                }
            }
        }
    }
}

/// Filtering with a predicate that every element meets keeps the sequence.
pub proof fn lemma_filter_all<A>(s: Seq<A>, p: spec_fn(A) -> bool)
    requires
        forall|i: int| 0 <= i < s.len() ==> p(#[trigger] s[i]),
    ensures
        s.filter(p) == s,
    decreases s.len(),
{
    reveal(Seq::filter);
    if s.len() > 0 {
        let rest = s.drop_last();
        assert forall|i: int| 0 <= i < rest.len() implies p(#[trigger] rest[i]) by {
            assert(rest[i] == s[i]);
        }
        lemma_filter_all(rest, p);
        assert(p(s[s.len() - 1]));
        assert(rest.push(s.last()) =~= s);
    }
}

/// What a store holds, as sequences of rows in their order of insertion,
/// and the ids that the next inserts will get.
pub struct StoreView {
    pub decks: Seq<deck::Model>,
    pub cards: Seq<card::Model>,
    pub next_deck_id: int,
    pub next_card_id: int,
}

impl StoreView {
    pub open spec fn has_deck(self, id: i32) -> bool {
        exists|i: int| 0 <= i < self.decks.len() && (#[trigger] self.decks[i]).id == id
    }

    pub open spec fn has_card(self, id: i32) -> bool {
        exists|i: int| 0 <= i < self.cards.len() && (#[trigger] self.cards[i]).id == id
    }

    /// The position of the deck with this id, where there is one.
    pub open spec fn deck_index(self, id: i32) -> int {
        choose|i: int| 0 <= i < self.decks.len() && (#[trigger] self.decks[i]).id == id
    }

    /// The position of the card with this id, where there is one.
    pub open spec fn card_index(self, id: i32) -> int {
        choose|i: int| 0 <= i < self.cards.len() && (#[trigger] self.cards[i]).id == id
    }

    pub open spec fn deck_with_id(self, id: i32) -> Option<deck::Model> {
        if self.has_deck(id) {
            Some(self.decks[self.deck_index(id)])
        } else {
            None
        }
    }

    pub open spec fn card_with_id(self, id: i32) -> Option<card::Model> {
        if self.has_card(id) {
            Some(self.cards[self.card_index(id)])
        } else {
            None
        }
    }

    /// The cards of deck `deck_id`, in the store's order.
    pub open spec fn cards_of(self, deck_id: i32) -> Seq<card::Model> {
        self.cards.filter(card_in_deck(deck_id))
    }

    /// Ids are positive, below the next id to be given, and strictly
    /// increasing; every card's deck is stored.
    pub open spec fn wf(self) -> bool {
        &&& 1 <= self.next_deck_id <= i32::MAX
        &&& 1 <= self.next_card_id <= i32::MAX
        &&& forall|i: int|
            0 <= i < self.decks.len() ==> 1 <= (#[trigger] self.decks[i]).id < self.next_deck_id
        &&& forall|i: int|
            0 <= i < self.cards.len() ==> 1 <= (#[trigger] self.cards[i]).id < self.next_card_id
        &&& increasing(self.decks, deck_key())
        &&& increasing(self.cards, card_key())
        &&& forall|i: int| 0 <= i < self.cards.len() ==> self.has_deck((#[trigger] self.cards[i]).deck_id)
    }

    pub open spec fn can_insert_deck(self) -> bool {
        self.next_deck_id < i32::MAX
    }

    /// The row that the next deck insert stores.
    pub open spec fn new_deck(self, name: String, description: Option<String>, now: i64) -> deck::Model {
        deck::Model {
            id: self.next_deck_id as i32,
            name,
            description,
            created_at: now,
            updated_at: now,
        }
    }

    pub open spec fn with_deck(self, d: deck::Model) -> StoreView {
        StoreView { decks: self.decks.push(d), next_deck_id: self.next_deck_id + 1, ..self }
    }

    /// A card insert needs a free id and, by the foreign key, a stored deck.
    pub open spec fn can_insert_card(self, deck_id: i32) -> bool {
        self.next_card_id < i32::MAX && self.has_deck(deck_id)
    }

    /// The row that the next card insert stores.
    pub open spec fn new_card(
        self,
        question: String,
        answer: String,
        deck_id: i32,
        now: i64,
    ) -> card::Model {
        card::Model {
            id: self.next_card_id as i32,
            question,
            answer,
            deck_id,
            created_at: now,
            updated_at: now,
        }
    }

    pub open spec fn with_card(self, c: card::Model) -> StoreView {
        StoreView { cards: self.cards.push(c), next_card_id: self.next_card_id + 1, ..self }
    }

    /// The store with the row of deck `d.id` replaced by `d`.
    pub open spec fn with_deck_replaced(self, d: deck::Model) -> StoreView {
        StoreView { decks: self.decks.update(self.deck_index(d.id), d), ..self }
    }

    /// A card update needs the card and, by the foreign key, its new deck.
    pub open spec fn can_replace_card(self, c: card::Model) -> bool {
        self.has_card(c.id) && self.has_deck(c.deck_id)
    }

    /// The store with the row of card `c.id` replaced by `c`.
    pub open spec fn with_card_replaced(self, c: card::Model) -> StoreView {
        StoreView { cards: self.cards.update(self.card_index(c.id), c), ..self }
    }

    /// The store without deck `id` and, by the cascade, without its cards.
    pub open spec fn without_deck(self, id: i32) -> StoreView {
        StoreView {
            decks: self.decks.filter(deck_other_than(id)),
            cards: self.cards.filter(card_outside_deck(id)),
            ..self
        }
    }

    pub open spec fn without_card(self, id: i32) -> StoreView {
        StoreView { cards: self.cards.filter(card_other_than(id)), ..self }
    }

    /// With well-formed ids, the deck at position `i` is the one its id finds.
    pub proof fn lemma_deck_at(self, i: int)
        requires
            self.wf(),
            0 <= i < self.decks.len(),
        ensures
            self.has_deck(self.decks[i].id),
            self.deck_index(self.decks[i].id) == i,
            self.deck_with_id(self.decks[i].id) == Some(self.decks[i]),
    {
        let id = self.decks[i].id;
        assert(self.has_deck(id));
        let k = self.deck_index(id);
        if k < i {
            assert(deck_key()(self.decks[k]) < deck_key()(self.decks[i]));
        } else if k > i {
            assert(deck_key()(self.decks[i]) < deck_key()(self.decks[k]));
        }
    }

    /// With well-formed ids, the card at position `i` is the one its id finds.
    pub proof fn lemma_card_at(self, i: int)
        requires
            self.wf(),
            0 <= i < self.cards.len(),
        ensures
            self.has_card(self.cards[i].id),
            self.card_index(self.cards[i].id) == i,
            self.card_with_id(self.cards[i].id) == Some(self.cards[i]),
    {
        let id = self.cards[i].id;
        assert(self.has_card(id));
        let k = self.card_index(id);
        if k < i {
            assert(card_key()(self.cards[k]) < card_key()(self.cards[i]));
        } else if k > i {
            assert(card_key()(self.cards[i]) < card_key()(self.cards[k]));
        }
    }

    pub proof fn lemma_with_deck_wf(self, name: String, description: Option<String>, now: i64)
        requires
            self.wf(),
            self.can_insert_deck(),
        ensures
            self.with_deck(self.new_deck(name, description, now)).wf(),
    {
        let d = self.new_deck(name, description, now);
        let t = self.with_deck(d);
        assert forall|i: int, j: int| 0 <= i < j < t.decks.len() implies deck_key()(
            #[trigger] t.decks[i],
        ) < deck_key()(#[trigger] t.decks[j]) by {
            if j < self.decks.len() {
                assert(deck_key()(self.decks[i]) < deck_key()(self.decks[j]));
            }
        }
        assert forall|i: int| 0 <= i < t.cards.len() implies t.has_deck(
            (#[trigger] t.cards[i]).deck_id,
        ) by {
            assert(self.has_deck(self.cards[i].deck_id));
            let k = self.deck_index(self.cards[i].deck_id);
            assert(t.decks[k] == self.decks[k]);
        }
    }

    pub proof fn lemma_with_card_wf(
        self,
        question: String,
        answer: String,
        deck_id: i32,
        now: i64,
    )
        requires
            self.wf(),
            self.can_insert_card(deck_id),
        ensures
            self.with_card(self.new_card(question, answer, deck_id, now)).wf(),
    {
        let c = self.new_card(question, answer, deck_id, now);
        let t = self.with_card(c);
        assert forall|i: int, j: int| 0 <= i < j < t.cards.len() implies card_key()(
            #[trigger] t.cards[i],
        ) < card_key()(#[trigger] t.cards[j]) by {
            if j < self.cards.len() {
                assert(card_key()(self.cards[i]) < card_key()(self.cards[j]));
            }
        }
        assert forall|i: int| 0 <= i < t.cards.len() implies t.has_deck(
            (#[trigger] t.cards[i]).deck_id,
        ) by {
            if i < self.cards.len() {
                assert(t.cards[i] == self.cards[i]);
            }
        }
    }

    pub proof fn lemma_with_deck_replaced_wf(self, d: deck::Model)
        requires
            self.wf(),
            self.has_deck(d.id),
        ensures
            self.with_deck_replaced(d).wf(),
            self.with_deck_replaced(d).deck_with_id(d.id) == Some(d),
    {
        let k = self.deck_index(d.id);
        let t = self.with_deck_replaced(d);
        assert forall|i: int, j: int| 0 <= i < j < t.decks.len() implies deck_key()(
            #[trigger] t.decks[i],
        ) < deck_key()(#[trigger] t.decks[j]) by {
            assert(deck_key()(self.decks[i]) < deck_key()(self.decks[j]));
        }
        assert forall|i: int| 0 <= i < t.cards.len() implies t.has_deck(
            (#[trigger] t.cards[i]).deck_id,
        ) by {
            assert(self.has_deck(self.cards[i].deck_id));
            let m = self.deck_index(self.cards[i].deck_id);
            assert(t.decks[m].id == self.decks[m].id);
        }
        assert(t.wf());
        t.lemma_deck_at(k);
    }

    pub proof fn lemma_with_card_replaced_wf(self, c: card::Model)
        requires
            self.wf(),
            self.can_replace_card(c),
        ensures
            self.with_card_replaced(c).wf(),
            self.with_card_replaced(c).card_with_id(c.id) == Some(c),
    {
        let k = self.card_index(c.id);
        let t = self.with_card_replaced(c);
        assert forall|i: int, j: int| 0 <= i < j < t.cards.len() implies card_key()(
            #[trigger] t.cards[i],
        ) < card_key()(#[trigger] t.cards[j]) by {
            assert(card_key()(self.cards[i]) < card_key()(self.cards[j]));
        }
        assert forall|i: int| 0 <= i < t.cards.len() implies t.has_deck(
            (#[trigger] t.cards[i]).deck_id,
        ) by {
            if i != k {
                assert(t.cards[i] == self.cards[i]);
            }
        }
        assert(t.wf());
        t.lemma_card_at(k);
    }

    /// Deleting a deck that is not stored changes nothing.
    pub proof fn lemma_without_absent_deck(self, id: i32)
        requires
            self.wf(),
            !self.has_deck(id),
        ensures
            self.without_deck(id) == self,
    {
        assert forall|i: int| 0 <= i < self.decks.len() implies deck_other_than(id)(
            #[trigger] self.decks[i],
        ) by {}
        assert forall|i: int| 0 <= i < self.cards.len() implies card_outside_deck(id)(
            #[trigger] self.cards[i],
        ) by {
            assert(self.has_deck(self.cards[i].deck_id));
        }
        lemma_filter_all(self.decks, deck_other_than(id));
        lemma_filter_all(self.cards, card_outside_deck(id));
    }

    /// Deleting a card that is not stored changes nothing.
    pub proof fn lemma_without_absent_card(self, id: i32)
        requires
            !self.has_card(id),
        ensures
            self.without_card(id) == self,
    {
        assert forall|i: int| 0 <= i < self.cards.len() implies card_other_than(id)(
            #[trigger] self.cards[i],
        ) by {}
        lemma_filter_all(self.cards, card_other_than(id));
    }

    pub proof fn lemma_without_deck_wf(self, id: i32)
        requires
            self.wf(),
        ensures
            self.without_deck(id).wf(),
            !self.without_deck(id).has_deck(id),
            forall|c: card::Model|
                self.cards.contains(c) && c.deck_id == id ==> !self.without_deck(id).has_card(c.id),
    {
        let t = self.without_deck(id);
        lemma_filter_subset(self.decks, deck_other_than(id));
        lemma_filter_subset(self.cards, card_outside_deck(id));
        lemma_filter_increasing(self.decks, deck_other_than(id), deck_key());
        lemma_filter_increasing(self.cards, card_outside_deck(id), card_key());
        assert forall|i: int| 0 <= i < t.decks.len() implies 1 <= (#[trigger] t.decks[i]).id
            < t.next_deck_id by {
            assert(self.decks.contains(t.decks[i]));
        }
        assert forall|i: int| 0 <= i < t.cards.len() implies 1 <= (#[trigger] t.cards[i]).id
            < t.next_card_id by {
            assert(self.cards.contains(t.cards[i]));
        }
        assert forall|i: int| 0 <= i < t.cards.len() implies t.has_deck(
            (#[trigger] t.cards[i]).deck_id,
        ) by {
            let c = t.cards[i];
            assert(self.cards.contains(c));
            assert(card_outside_deck(id)(c));
            let j = choose|j: int| 0 <= j < self.cards.len() && self.cards[j] == c;
            assert(self.has_deck(self.cards[j].deck_id));
            let m = self.deck_index(c.deck_id);
            assert(deck_other_than(id)(self.decks[m]));
            assert(t.decks.contains(self.decks[m]));
            let n = choose|n: int| 0 <= n < t.decks.len() && t.decks[n] == self.decks[m];
            assert(t.decks[n].id == c.deck_id);
        }
        assert(!t.has_deck(id)) by {
            if t.has_deck(id) {
                let i = t.deck_index(id);
                assert(deck_other_than(id)(t.decks[i]));
            }
        }
        assert forall|c: card::Model|
            self.cards.contains(c) && c.deck_id == id implies !t.has_card(c.id) by {
            if t.has_card(c.id) {
                let i = t.card_index(c.id);
                let e = t.cards[i];
                assert(card_outside_deck(id)(e));
                assert(self.cards.contains(e));
                let j = choose|j: int| 0 <= j < self.cards.len() && self.cards[j] == e;
                let k = choose|k: int| 0 <= k < self.cards.len() && self.cards[k] == c;
                self.lemma_card_at(j);
                self.lemma_card_at(k);
            }
        }
    }

    pub proof fn lemma_without_card_wf(self, id: i32)
        requires
            self.wf(),
        ensures
            self.without_card(id).wf(),
            !self.without_card(id).has_card(id),
    {
        let t = self.without_card(id);
        lemma_filter_subset(self.cards, card_other_than(id));
        lemma_filter_increasing(self.cards, card_other_than(id), card_key());
        assert forall|i: int| 0 <= i < t.cards.len() implies 1 <= (#[trigger] t.cards[i]).id
            < t.next_card_id && t.has_deck(t.cards[i].deck_id) by {
            assert(self.cards.contains(t.cards[i]));
            let j = choose|j: int| 0 <= j < self.cards.len() && self.cards[j] == t.cards[i];
            assert(self.has_deck(self.cards[j].deck_id));
        }
        assert(!t.has_card(id)) by {
            if t.has_card(id) {
                let i = t.card_index(id);
                assert(card_other_than(id)(t.cards[i]));
            }
        }
    }
}

/// The decks and cards, with the counters that assign their ids.
pub struct Store {
    decks: Vec<deck::Model>,
    cards: Vec<card::Model>,
    next_deck_id: i32,
    next_card_id: i32,
}

impl View for Store {
    type V = StoreView;

    closed spec fn view(&self) -> StoreView {
        StoreView {
            decks: self.decks@,
            cards: self.cards@,
            next_deck_id: self.next_deck_id as int,
            next_card_id: self.next_card_id as int,
        }
    }
}

/// The decks of `v` other than deck `id`, in order.
fn decks_except(v: &Vec<deck::Model>, id: i32) -> (r: Vec<deck::Model>)
    ensures
        r@ == v@.filter(deck_other_than(id)),
{
    let mut out: Vec<deck::Model> = Vec::new();
    let mut i: usize = 0;
    while i < v.len()
        invariant
            0 <= i <= v.len(),
            out@ == v@.subrange(0, i as int).filter(deck_other_than(id)),
        decreases v.len() - i,
    {
        proof {
            reveal(Seq::filter);
            assert(v@.subrange(0, i + 1).drop_last() =~= v@.subrange(0, i as int));
        }
        if v[i].id != id {
            out.push(v[i].duplicate());
        }
        i += 1;
    }
    assert(v@.subrange(0, v.len() as int) =~= v@);
    out
}

/// The cards of `v` that `keep` selects, in order: those of deck `deck_id`
/// when `inside` holds, and the others when it does not.
fn cards_by_deck(v: &Vec<card::Model>, deck_id: i32, inside: bool) -> (r: Vec<card::Model>)
    ensures
        inside ==> r@ == v@.filter(card_in_deck(deck_id)),
        !inside ==> r@ == v@.filter(card_outside_deck(deck_id)),
{
    let mut out: Vec<card::Model> = Vec::new();
    let mut i: usize = 0;
    while i < v.len()
        invariant
            0 <= i <= v.len(),
            inside ==> out@ == v@.subrange(0, i as int).filter(card_in_deck(deck_id)),
            !inside ==> out@ == v@.subrange(0, i as int).filter(card_outside_deck(deck_id)),
        decreases v.len() - i,
    {
        proof {
            reveal(Seq::filter);
            assert(v@.subrange(0, i + 1).drop_last() =~= v@.subrange(0, i as int));
        }
        if (v[i].deck_id == deck_id) == inside {
            out.push(v[i].duplicate());
        }
        i += 1;
    }
    assert(v@.subrange(0, v.len() as int) =~= v@);
    out
}

/// The cards of `v` other than card `id`, in order.
fn cards_except(v: &Vec<card::Model>, id: i32) -> (r: Vec<card::Model>)
    ensures
        r@ == v@.filter(card_other_than(id)),
{
    let mut out: Vec<card::Model> = Vec::new();
    let mut i: usize = 0;
    while i < v.len()
        invariant
            0 <= i <= v.len(),
            out@ == v@.subrange(0, i as int).filter(card_other_than(id)),
        decreases v.len() - i,
    {
        proof {
            reveal(Seq::filter);
            assert(v@.subrange(0, i + 1).drop_last() =~= v@.subrange(0, i as int));
        }
        if v[i].id != id {
            out.push(v[i].duplicate());
        }
        i += 1;
    }
    assert(v@.subrange(0, v.len() as int) =~= v@);
    out
}

impl Store {
    /// An empty store whose first ids will be 1.
    pub fn new() -> (r: Store)
        ensures
            r@.wf(),
            r@.decks == Seq::<deck::Model>::empty(),
            r@.cards == Seq::<card::Model>::empty(),
            r@.next_deck_id == 1,
            r@.next_card_id == 1,
    {
        Store { decks: Vec::new(), cards: Vec::new(), next_deck_id: 1, next_card_id: 1 }
    }

    fn deck_position(&self, id: i32) -> (r: Option<usize>)
        requires
            self@.wf(),
        ensures
            match r {
                Some(i) => i < self@.decks.len() && self@.decks[i as int].id == id,
                None => !self@.has_deck(id),
            },
    {
        let mut i: usize = 0;
        while i < self.decks.len()
            invariant
                0 <= i <= self@.decks.len(),
                forall|k: int| 0 <= k < i ==> (#[trigger] self@.decks[k]).id != id,
            decreases self.decks.len() - i,
        {
            if self.decks[i].id == id {
                return Some(i);
            }
            i += 1;
        }
        None
    }

    fn card_position(&self, id: i32) -> (r: Option<usize>)
        requires
            self@.wf(),
        ensures
            match r {
                Some(i) => i < self@.cards.len() && self@.cards[i as int].id == id,
                None => !self@.has_card(id),
            },
    {
        let mut i: usize = 0;
        while i < self.cards.len()
            invariant
                0 <= i <= self@.cards.len(),
                forall|k: int| 0 <= k < i ==> (#[trigger] self@.cards[k]).id != id,
            decreases self.cards.len() - i,
        {
            if self.cards[i].id == id {
                return Some(i);
            }
            i += 1;
        }
        None
    }

    /// Whether a deck with this id is stored.
    pub fn contains_deck(&self, id: i32) -> (r: bool)
        requires
            self@.wf(),
        ensures
            r == self@.has_deck(id),
    {
        self.deck_position(id).is_some()
    }

    /// The deck with this id, if it is stored.
    pub fn get_deck(&self, id: i32) -> (r: Option<deck::Model>)
        requires
            self@.wf(),
        ensures
            r == self@.deck_with_id(id),
    {
        match self.deck_position(id) {
            Some(i) => {
                proof {
                    self@.lemma_deck_at(i as int);
                }
                Some(self.decks[i].duplicate())
            },
            None => None,
        }
    }

    /// The card with this id, if it is stored.
    pub fn get_card(&self, id: i32) -> (r: Option<card::Model>)
        requires
            self@.wf(),
        ensures
            r == self@.card_with_id(id),
    {
        match self.card_position(id) {
            Some(i) => {
                proof {
                    self@.lemma_card_at(i as int);
                }
                Some(self.cards[i].duplicate())
            },
            None => None,
        }
    }

    /// All decks, in the store's order.
    pub fn list_decks(&self) -> (r: Vec<deck::Model>)
        ensures
            r@ == self@.decks,
    {
        let mut out: Vec<deck::Model> = Vec::new();
        let mut i: usize = 0;
        while i < self.decks.len()
            invariant
                0 <= i <= self@.decks.len(),
                out@ == self@.decks.subrange(0, i as int),
            decreases self.decks.len() - i,
        {
            out.push(self.decks[i].duplicate());
            i += 1;
            assert(out@ =~= self@.decks.subrange(0, i as int));
        }
        assert(out@ =~= self@.decks);
        out
    }

    /// All cards, in the store's order.
    pub fn list_cards(&self) -> (r: Vec<card::Model>)
        ensures
            r@ == self@.cards,
    {
        let mut out: Vec<card::Model> = Vec::new();
        let mut i: usize = 0;
        while i < self.cards.len()
            invariant
                0 <= i <= self@.cards.len(),
                out@ == self@.cards.subrange(0, i as int),
            decreases self.cards.len() - i,
        {
            out.push(self.cards[i].duplicate());
            i += 1;
            assert(out@ =~= self@.cards.subrange(0, i as int));
        }
        assert(out@ =~= self@.cards);
        out
    }

    /// The cards of deck `deck_id`, in the store's order.
    pub fn list_cards_by_deck(&self, deck_id: i32) -> (r: Vec<card::Model>)
        ensures
            r@ == self@.cards_of(deck_id),
    {
        cards_by_deck(&self.cards, deck_id, true)
    }

    /// Stores a new deck under the next id, with both timestamps `now`. Fails
    /// only when the ids are used up.
    pub fn insert_deck(&mut self, name: String, description: Option<String>, now: i64) -> (r:
        Result<deck::Model, StorageError>)
        requires
            old(self)@.wf(),
        ensures
            final(self)@.wf(),
            old(self)@.can_insert_deck() ==> r == Ok::<deck::Model, StorageError>(
                old(self)@.new_deck(name, description, now),
            ) && final(self)@ == old(self)@.with_deck(old(self)@.new_deck(name, description, now)),
            !old(self)@.can_insert_deck() ==> r == Err::<deck::Model, StorageError>(StorageError)
                && final(self)@ == old(self)@,
    {
        if self.next_deck_id == i32::MAX {
            return Err(StorageError);
        }
        proof {
            self@.lemma_with_deck_wf(name, description, now);
        }
        let d = deck::Model {
            id: self.next_deck_id,
            name,
            description,
            created_at: now,
            updated_at: now,
        };
        let stored = d.duplicate();
        self.decks.push(stored);
        self.next_deck_id = self.next_deck_id + 1;
        Ok(d)
    }

    /// Stores a new card under the next id, with both timestamps `now`. Fails
    /// when the ids are used up, or when deck `deck_id` is not stored, which
    /// the foreign key forbids.
    pub fn insert_card(&mut self, question: String, answer: String, deck_id: i32, now: i64) -> (r:
        Result<card::Model, StorageError>)
        requires
            old(self)@.wf(),
        ensures
            final(self)@.wf(),
            old(self)@.can_insert_card(deck_id) ==> r == Ok::<card::Model, StorageError>(
                old(self)@.new_card(question, answer, deck_id, now),
            ) && final(self)@ == old(self)@.with_card(
                old(self)@.new_card(question, answer, deck_id, now),
            ),
            !old(self)@.can_insert_card(deck_id) ==> r == Err::<card::Model, StorageError>(
                StorageError,
            ) && final(self)@ == old(self)@,
    {
        if self.next_card_id == i32::MAX || !self.contains_deck(deck_id) {
            return Err(StorageError);
        }
        proof {
            self@.lemma_with_card_wf(question, answer, deck_id, now);
        }
        let c = card::Model {
            id: self.next_card_id,
            question,
            answer,
            deck_id,
            created_at: now,
            updated_at: now,
        };
        let stored = c.duplicate();
        self.cards.push(stored);
        self.next_card_id = self.next_card_id + 1;
        Ok(c)
    }

    /// Writes `d` over the stored deck with id `d.id`. Fails when there is
    /// no such deck.
    pub fn update_deck(&mut self, d: deck::Model) -> (r: Result<deck::Model, StorageError>)
        requires
            old(self)@.wf(),
        ensures
            final(self)@.wf(),
            old(self)@.has_deck(d.id) ==> r == Ok::<deck::Model, StorageError>(d) && final(self)@
                == old(self)@.with_deck_replaced(d),
            !old(self)@.has_deck(d.id) ==> r == Err::<deck::Model, StorageError>(StorageError)
                && final(self)@ == old(self)@,
    {
        match self.deck_position(d.id) {
            Some(i) => {
                proof {
                    self@.lemma_deck_at(i as int);
                    self@.lemma_with_deck_replaced_wf(d);
                }
                let stored = d.duplicate();
                self.decks.set(i, stored);
                Ok(d)
            },
            None => Err(StorageError),
        }
    }

    /// Writes `c` over the stored card with id `c.id`. Fails when there is
    /// no such card, or when its deck is not stored.
    pub fn update_card(&mut self, c: card::Model) -> (r: Result<card::Model, StorageError>)
        requires
            old(self)@.wf(),
        ensures
            final(self)@.wf(),
            old(self)@.can_replace_card(c) ==> r == Ok::<card::Model, StorageError>(c)
                && final(self)@ == old(self)@.with_card_replaced(c),
            !old(self)@.can_replace_card(c) ==> r == Err::<card::Model, StorageError>(StorageError)
                && final(self)@ == old(self)@,
    {
        if !self.contains_deck(c.deck_id) {
            return Err(StorageError);
        }
        match self.card_position(c.id) {
            Some(i) => {
                proof {
                    self@.lemma_card_at(i as int);
                    self@.lemma_with_card_replaced_wf(c);
                }
                let stored = c.duplicate();
                self.cards.set(i, stored);
                Ok(c)
            },
            None => Err(StorageError),
        }
    }

    /// Deletes deck `id` and, by the cascade, its cards. Returns the number
    /// of decks removed.
    pub fn delete_deck(&mut self, id: i32) -> (r: u64)
        requires
            old(self)@.wf(),
        ensures
            final(self)@.wf(),
            r == (if old(self)@.has_deck(id) { 1u64 } else { 0u64 }),
            final(self)@ == old(self)@.without_deck(id),
            !old(self)@.has_deck(id) ==> final(self)@ == old(self)@,
    {
        proof {
            self@.lemma_without_deck_wf(id);
            if !self@.has_deck(id) {
                self@.lemma_without_absent_deck(id);
            }
        }
        let found = self.contains_deck(id);
        let decks = decks_except(&self.decks, id);
        let cards = cards_by_deck(&self.cards, id, false);
        self.decks = decks;
        self.cards = cards;
        if found {
            1
        } else {
            0
        }
    }

    /// Deletes card `id`. Returns the number of cards removed.
    pub fn delete_card(&mut self, id: i32) -> (r: u64)
        requires
            old(self)@.wf(),
        ensures
            final(self)@.wf(),
            r == (if old(self)@.has_card(id) { 1u64 } else { 0u64 }),
            final(self)@ == old(self)@.without_card(id),
            !old(self)@.has_card(id) ==> final(self)@ == old(self)@,
    {
        proof {
            self@.lemma_without_card_wf(id);
            if !self@.has_card(id) {
                self@.lemma_without_absent_card(id);
            }
        }
        let found = self.card_position(id).is_some();
        let cards = cards_except(&self.cards, id);
        self.cards = cards;
        if found {
            1
        } else {
            0
        }
    }
}

} // verus!
