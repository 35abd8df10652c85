//! Properties that relate the operations to each other.
use crate::error::ApiError;
use crate::handlers::card_handlers::{
    cards_by_deck_outcome, create_card_outcome, delete_card_outcome, get_card_outcome,
    update_card_outcome,
};
use crate::handlers::deck_handlers::{
    create_deck_outcome, delete_deck_outcome, get_deck_outcome, update_deck_outcome,
};
use crate::error::StorageError;
use crate::handlers::{
    card_response, create_card_step, update_card_step, CardResponse, CreateCardRequest, CreateDeckRequest, DeckResponse,
    UpdateCardRequest, UpdateDeckRequest,
};
use crate::models::{card, deck};
use crate::store::{card_outside_deck, StoreView};
use vstd::prelude::*;

verus! {

broadcast use vstd::seq_lib::group_filter_ensures;

/// Creating a deck and then fetching it by the id it was given returns the
/// deck as it was created, with `updated_at` not before `created_at`.
pub proof fn lemma_create_then_get_deck(s: StoreView, payload: CreateDeckRequest, now: i64)
    requires
        s.wf(),
    ensures
        create_deck_outcome(s, payload, now).1 is Ok ==> {
            let (t, r) = create_deck_outcome(s, payload, now);
            &&& get_deck_outcome(t, r->Ok_0.id) == r
            &&& r->Ok_0.updated_at >= r->Ok_0.created_at
        },
{
    if s.can_insert_deck() {
        s.lemma_with_deck_wf(payload.name, payload.description, now);
        let t = s.with_deck(s.new_deck(payload.name, payload.description, now));
        t.lemma_deck_at(s.decks.len() as int);
    }
}

/// Creating a card for a deck that is not stored is a `ValidationFailure`
/// and leaves the store as it was.
pub proof fn lemma_create_card_without_deck(s: StoreView, payload: CreateCardRequest, now: i64)
    requires
        s.wf(),
        !s.has_deck(payload.deck_id),
    ensures
        create_card_outcome(s, payload, now) == (s, Err::<CardResponse, ApiError>(
            ApiError::ValidationFailure,
        )),
{
}

/// Deleting a stored deck removes it and every card it owns: a lookup of
/// the deck or of any of those cards is then `NotFound`, while the cards of
/// other decks stay as they were.
pub proof fn lemma_delete_deck_cascades(s: StoreView, id: i32)
    requires
        s.wf(),
        s.has_deck(id),
    ensures
        delete_deck_outcome(s, id).1 == Ok::<(), ApiError>(()),
        get_deck_outcome(delete_deck_outcome(s, id).0, id) == Err::<DeckResponse, ApiError>(
            ApiError::NotFound,
        ),
        forall|c: card::Model|
            s.cards.contains(c) && c.deck_id == id ==> get_card_outcome(
                #[trigger] delete_deck_outcome(s, id).0,
                c.id,
            ) == Err::<CardResponse, ApiError>(ApiError::NotFound),
        forall|c: card::Model|
            s.cards.contains(c) && c.deck_id != id ==> get_card_outcome(
                #[trigger] delete_deck_outcome(s, id).0,
                c.id,
            ) == Ok::<CardResponse, ApiError>(card_response(c)),
{
    s.lemma_without_deck_wf(id);
    let t = s.without_deck(id);
    assert forall|c: card::Model| s.cards.contains(c) && c.deck_id != id implies get_card_outcome(
        #[trigger] delete_deck_outcome(s, id).0,
        c.id,
    ) == Ok::<CardResponse, ApiError>(card_response(c)) by {
        let j = choose|j: int| 0 <= j < s.cards.len() && s.cards[j] == c;
        assert(card_outside_deck(id)(s.cards[j]));
        assert(t.cards.contains(c));
        let k = choose|k: int| 0 <= k < t.cards.len() && t.cards[k] == c;
        t.lemma_card_at(k);
    }
}

/// An update that supplies only a deck's name leaves its description as it
/// was; the update stamps `updated_at` with its time.
pub proof fn lemma_update_deck_name_only(s: StoreView, id: i32, name: String, now: i64)
    requires
        s.wf(),
        s.has_deck(id),
    ensures
        ({
            let old_deck = s.deck_with_id(id)->Some_0;
            let (t, r) = update_deck_outcome(
                s,
                id,
                UpdateDeckRequest { name: Some(name), description: None },
                now,
            );
            &&& r is Ok
            &&& r->Ok_0.name == name
            &&& r->Ok_0.description == old_deck.description
            &&& r->Ok_0.created_at == old_deck.created_at
            &&& r->Ok_0.updated_at == now
            &&& get_deck_outcome(t, id) == r
        }),
{
    let d = s.deck_with_id(id)->Some_0;
    let u = deck::updated_deck(d, UpdateDeckRequest { name: Some(name), description: None }, now);
    s.lemma_with_deck_replaced_wf(u);
}

/// Every successful deck update stamps `updated_at` with its time, whatever
/// fields it supplies; so it changes whenever that time differs from the
/// stored one.
pub proof fn lemma_update_deck_stamps(s: StoreView, id: i32, payload: UpdateDeckRequest, now: i64)
    requires
        s.wf(),
    ensures
        update_deck_outcome(s, id, payload, now).1 is Ok ==> {
            &&& update_deck_outcome(s, id, payload, now).1->Ok_0.updated_at == now
            &&& now != s.deck_with_id(id)->Some_0.updated_at ==> update_deck_outcome(
                s,
                id,
                payload,
                now,
            ).1->Ok_0.updated_at != s.deck_with_id(id)->Some_0.updated_at
        },
{
}

/// An update that supplies only a card's question leaves its answer and its
/// deck as they were; the update stamps `updated_at` with its time.
pub proof fn lemma_update_card_question_only(s: StoreView, id: i32, question: String, now: i64)
    requires
        s.wf(),
        s.has_card(id),
    ensures
        ({
            let old_card = s.card_with_id(id)->Some_0;
            let (t, r) = update_card_outcome(
                s,
                id,
                UpdateCardRequest { question: Some(question), answer: None, deck_id: None },
                now,
            );
            &&& r is Ok
            &&& r->Ok_0.question == question
            &&& r->Ok_0.answer == old_card.answer
            &&& r->Ok_0.deck_id == old_card.deck_id
            &&& r->Ok_0.created_at == old_card.created_at
            &&& r->Ok_0.updated_at == now
            &&& get_card_outcome(t, id) == r
        }),
{
    let c = s.card_with_id(id)->Some_0;
    let patch = UpdateCardRequest { question: Some(question), answer: None, deck_id: None };
    let u = card::updated_card(c, patch, now);
    assert(s.has_deck(s.cards[s.card_index(id)].deck_id));
    s.lemma_with_card_replaced_wf(u);
}

/// Every successful card update stamps `updated_at` with its time, whatever
/// fields it supplies; so it changes whenever that time differs from the
/// stored one.
pub proof fn lemma_update_card_stamps(s: StoreView, id: i32, payload: UpdateCardRequest, now: i64)
    requires
        s.wf(),
    ensures
        update_card_outcome(s, id, payload, now).1 is Ok ==> {
            &&& update_card_outcome(s, id, payload, now).1->Ok_0.updated_at == now
            &&& now != s.card_with_id(id)->Some_0.updated_at ==> update_card_outcome(
                s,
                id,
                payload,
                now,
            ).1->Ok_0.updated_at != s.card_with_id(id)->Some_0.updated_at
        },
{
}

/// Listing the cards of a deck that is not stored is `NotFound`, not an
/// empty list.
pub proof fn lemma_cards_of_missing_deck(s: StoreView, deck_id: i32)
    requires
        s.wf(),
        !s.has_deck(deck_id),
    ensures
        cards_by_deck_outcome(s, deck_id) == Err::<Seq<CardResponse>, ApiError>(ApiError::NotFound),
{
}

/// Deleting a deck or a card that is not stored is `NotFound`, never a
/// `StorageFailure`, and changes nothing.
pub proof fn lemma_delete_missing(s: StoreView, id: i32)
    requires
        s.wf(),
    ensures
        !s.has_deck(id) ==> delete_deck_outcome(s, id) == (s, Err::<(), ApiError>(
            ApiError::NotFound,
        )),
        !s.has_card(id) ==> delete_card_outcome(s, id) == (s, Err::<(), ApiError>(
            ApiError::NotFound,
        )),
{
}

/// When the lookup of the deck that a card names fails, creating or updating
/// the card is a `StorageFailure`, never a `ValidationFailure` or
/// `NotFound`, and leaves nothing to write.
pub proof fn lemma_failed_deck_lookup_writes_nothing(
    create: CreateCardRequest,
    existing: card::Model,
    update: UpdateCardRequest,
    now: i64,
)
    ensures
        create_card_step(Err(StorageError), create) == Err::<CreateCardRequest, ApiError>(
            ApiError::StorageFailure,
        ),
        update_card_step(
            Ok(Some(existing)),
            update,
            Some(Err::<bool, StorageError>(StorageError)),
            now,
        ) == Err::<card::Model, ApiError>(ApiError::StorageFailure),
{
}

} // verus!
