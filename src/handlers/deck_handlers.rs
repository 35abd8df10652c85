//! The deck operations, over a store.
use crate::error::ApiError;
use crate::handlers::{
    deck_response, deck_responses, require_addressed, require_deleted, require_stored,
    to_deck_responses, update_deck_next, CreateDeckRequest, DeckResponse, UpdateDeckRequest,
};
use crate::models::deck::updated_deck;
use crate::store::{Store, StoreView};
use vstd::prelude::*;

verus! {

/// The store and the result after creating a deck at time `now`.
pub open spec fn create_deck_outcome(s: StoreView, payload: CreateDeckRequest, now: i64) -> (
    StoreView,
    Result<DeckResponse, ApiError>,
) {
    if s.can_insert_deck() {
        let d = s.new_deck(payload.name, payload.description, now);
        (s.with_deck(d), Ok(deck_response(d)))
    } else {
        (s, Err(ApiError::StorageFailure))
    }
}

/// The result of fetching deck `id`.
pub open spec fn get_deck_outcome(s: StoreView, id: i32) -> Result<DeckResponse, ApiError> {
    match s.deck_with_id(id) {
        Some(d) => Ok(deck_response(d)),
        None => Err(ApiError::NotFound),
    }
}

/// The store and the result after updating deck `id` at time `now`.
pub open spec fn update_deck_outcome(
    s: StoreView,
    id: i32,
    payload: UpdateDeckRequest,
    now: i64,
) -> (StoreView, Result<DeckResponse, ApiError>) {
    match s.deck_with_id(id) {
        Some(d) => {
            let u = updated_deck(d, payload, now);
            (s.with_deck_replaced(u), Ok(deck_response(u)))
        },
        None => (s, Err(ApiError::NotFound)),
    }
}

/// The store and the result after deleting deck `id`.
pub open spec fn delete_deck_outcome(s: StoreView, id: i32) -> (StoreView, Result<(), ApiError>) {
    if s.has_deck(id) {
        (s.without_deck(id), Ok(()))
    } else {
        (s, Err(ApiError::NotFound))
    }
}


/// Creates a deck whose timestamps are both `now`.
pub fn create_deck(store: &mut Store, payload: CreateDeckRequest, now: i64) -> (r: Result<
    DeckResponse,
    ApiError,
>)
    requires
        old(store)@.wf(),
    ensures
        final(store)@.wf(),
        (final(store)@, r) == create_deck_outcome(old(store)@, payload, now),
{
    let inserted = store.insert_deck(payload.name, payload.description, now);
    match require_stored(inserted) {
        Ok(d) => Ok(DeckResponse::from(d)),
        Err(e) => Err(e),
    }
}

/// Every deck, in the store's order.
pub fn get_all_decks(store: &Store) -> (r: Vec<DeckResponse>)
    ensures
        r@ == deck_responses(store@.decks),
{
    let decks = store.list_decks();
    to_deck_responses(&decks)
}

/// Deck `id`, or `NotFound`.
pub fn get_deck_by_id(store: &Store, id: i32) -> (r: Result<DeckResponse, ApiError>)
    requires
        store@.wf(),
    ensures
        r == get_deck_outcome(store@, id),
{
    match require_addressed(Ok(store.get_deck(id))) {
        Ok(d) => Ok(DeckResponse::from(d)),
        Err(e) => Err(e),
    }
}


/// Applies the supplied fields to deck `id` and sets its `updated_at` to
/// `now`; `NotFound` if there is no such deck.
pub fn update_deck_by_id(store: &mut Store, id: i32, payload: UpdateDeckRequest, now: i64) -> (r:
    Result<DeckResponse, ApiError>)
    requires
        old(store)@.wf(),
    ensures
        final(store)@.wf(),
        (final(store)@, r) == update_deck_outcome(old(store)@, id, payload, now),
{
    let changed = match update_deck_next(Ok(store.get_deck(id)), payload, now) {
        Ok(d) => d,
        Err(e) => return Err(e),
    };
    match require_stored(store.update_deck(changed)) {
        Ok(d) => Ok(DeckResponse::from(d)),
        Err(e) => Err(e),
    }
}

/// Deletes deck `id` and its cards; `NotFound` if there is no such deck.
pub fn delete_deck_by_id(store: &mut Store, id: i32) -> (r: Result<(), ApiError>)
    requires
        old(store)@.wf(),
    ensures
        final(store)@.wf(),
        (final(store)@, r) == delete_deck_outcome(old(store)@, id),
{
    let rows = store.delete_deck(id);
    require_deleted(Ok(rows))
}

} // verus!
