//! The card operations, over a store. Every write that names a deck checks
//! first that the deck is stored.
use crate::error::ApiError;
use crate::handlers::{
    card_response, card_responses, create_card_next, require_addressed, require_deleted,
    require_stored, to_card_responses, update_card_next, CardResponse, CreateCardRequest,
    UpdateCardRequest,
};
use crate::models::card::updated_card;
use crate::store::{Store, StoreView};
use vstd::prelude::*;

verus! {

/// The store and the result after creating a card at time `now`.
pub open spec fn create_card_outcome(s: StoreView, payload: CreateCardRequest, now: i64) -> (
    StoreView,
    Result<CardResponse, ApiError>,
) {
    if !s.has_deck(payload.deck_id) {
        (s, Err(ApiError::ValidationFailure))
    } else if s.can_insert_card(payload.deck_id) {
        let c = s.new_card(payload.question, payload.answer, payload.deck_id, now);
        (s.with_card(c), Ok(card_response(c)))
    } else {
        (s, Err(ApiError::StorageFailure))
    }
}

/// The result of listing the cards of deck `deck_id`.
pub open spec fn cards_by_deck_outcome(s: StoreView, deck_id: i32) -> Result<
    Seq<CardResponse>,
    ApiError,
> {
    if s.has_deck(deck_id) {
        Ok(card_responses(s.cards_of(deck_id)))
    } else {
        Err(ApiError::NotFound)
    }
}

/// The result of fetching card `id`.
pub open spec fn get_card_outcome(s: StoreView, id: i32) -> Result<CardResponse, ApiError> {
    match s.card_with_id(id) {
        Some(c) => Ok(card_response(c)),
        None => Err(ApiError::NotFound),
    }
}

/// The store and the result after updating card `id` at time `now`.
pub open spec fn update_card_outcome(
    s: StoreView,
    id: i32,
    payload: UpdateCardRequest,
    now: i64,
) -> (StoreView, Result<CardResponse, ApiError>) {
    match s.card_with_id(id) {
        Some(c) => if payload.deck_id is Some && !s.has_deck(payload.deck_id->Some_0) {
            (s, Err(ApiError::ValidationFailure))
        } else {
            let u = updated_card(c, payload, now);
            (s.with_card_replaced(u), Ok(card_response(u)))
        },
        None => (s, Err(ApiError::NotFound)),
    }
}

/// The store and the result after deleting card `id`.
pub open spec fn delete_card_outcome(s: StoreView, id: i32) -> (StoreView, Result<(), ApiError>) {
    if s.has_card(id) {
        (s.without_card(id), Ok(()))
    } else {
        (s, Err(ApiError::NotFound))
    }
}


/// Creates a card whose timestamps are both `now`, once its deck is known
/// to exist; a missing deck is a `ValidationFailure`.
pub fn create_card(store: &mut Store, payload: CreateCardRequest, now: i64) -> (r: Result<
    CardResponse,
    ApiError,
>)
    requires
        old(store)@.wf(),
    ensures
        final(store)@.wf(),
        (final(store)@, r) == create_card_outcome(old(store)@, payload, now),
{
    let found = store.contains_deck(payload.deck_id);
    let payload = match create_card_next(Ok(found), payload) {
        Ok(p) => p,
        Err(e) => return Err(e),
    };
    let inserted = store.insert_card(payload.question, payload.answer, payload.deck_id, now);
    match require_stored(inserted) {
        Ok(c) => Ok(CardResponse::from(c)),
        Err(e) => Err(e),
    }
}

/// Every card, in the store's order.
pub fn get_all_cards(store: &Store) -> (r: Vec<CardResponse>)
    ensures
        r@ == card_responses(store@.cards),
{
    let cards = store.list_cards();
    to_card_responses(&cards)
}

/// The cards of deck `deck_id`, or `NotFound` if there is no such deck.
pub fn get_cards_by_deck(store: &Store, deck_id: i32) -> (r: Result<Vec<CardResponse>, ApiError>)
    requires
        store@.wf(),
    ensures
        r is Ok <==> cards_by_deck_outcome(store@, deck_id) is Ok,
        r is Ok ==> r->Ok_0@ == cards_by_deck_outcome(store@, deck_id)->Ok_0,
        r is Err ==> r->Err_0 == cards_by_deck_outcome(store@, deck_id)->Err_0,
{
    let found = if store.contains_deck(deck_id) {
        Some(())
    } else {
        None
    };
    if let Err(e) = require_addressed(Ok(found)) {
        return Err(e);
    }
    let cards = store.list_cards_by_deck(deck_id);
    Ok(to_card_responses(&cards))
}

/// Card `id`, or `NotFound`.
pub fn get_card_by_id(store: &Store, id: i32) -> (r: Result<CardResponse, ApiError>)
    requires
        store@.wf(),
    ensures
        r == get_card_outcome(store@, id),
{
    match require_addressed(Ok(store.get_card(id))) {
        Ok(c) => Ok(CardResponse::from(c)),
        Err(e) => Err(e),
    }
}


/// Applies the supplied fields to card `id` and sets its `updated_at` to
/// `now`. `NotFound` if there is no such card; `ValidationFailure`, with
/// nothing written, if a supplied `deck_id` names no stored deck.
pub fn update_card(store: &mut Store, id: i32, payload: UpdateCardRequest, now: i64) -> (r:
    Result<CardResponse, ApiError>)
    requires
        old(store)@.wf(),
    ensures
        final(store)@.wf(),
        (final(store)@, r) == update_card_outcome(old(store)@, id, payload, now),
{
    let existing = store.get_card(id);
    let deck_found = match payload.deck_id {
        Some(new_deck_id) => Some(Ok(store.contains_deck(new_deck_id))),
        None => None,
    };
    let changed = match update_card_next(Ok(existing), payload, deck_found, now) {
        Ok(c) => c,
        Err(e) => return Err(e),
    };
    proof {
        let k = store@.card_index(id);
        assert(store@.has_deck(store@.cards[k].deck_id));
    }
    match require_stored(store.update_card(changed)) {
        Ok(c) => Ok(CardResponse::from(c)),
        Err(e) => Err(e),
    }
}

/// Deletes card `id`; `NotFound` if there is no such card.
pub fn delete_card(store: &mut Store, id: i32) -> (r: Result<(), ApiError>)
    requires
        old(store)@.wf(),
    ensures
        final(store)@.wf(),
        (final(store)@, r) == delete_card_outcome(old(store)@, id),
{
    let rows = store.delete_card(id);
    require_deleted(Ok(rows))
}

} // verus!
