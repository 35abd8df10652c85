//! Requests, responses, and the decisions that every operation shares.
pub mod card_handlers;
pub mod deck_handlers;

use crate::error::{ApiError, StorageError};
use crate::models::{card, deck};
use vstd::prelude::*;

verus! {

/// What a client supplies to create a deck.
#[derive(Debug)]
pub struct CreateDeckRequest {
    pub name: String,
    pub description: Option<String>,
}

/// What a client supplies to update a deck: only present fields change.
#[derive(Debug)]
pub struct UpdateDeckRequest {
    pub name: Option<String>,
    pub description: Option<String>,
}

/// A deck as it is handed back to a client.
#[derive(Debug)]
pub struct DeckResponse {
    pub id: i32,
    pub name: String,
    pub description: Option<String>,
    pub created_at: i64,
    pub updated_at: i64,
}

/// What a client supplies to create a card.
#[derive(Debug)]
pub struct CreateCardRequest {
    pub question: String,
    pub answer: String,
    pub deck_id: i32,
}

/// What a client supplies to update a card: only present fields change.
#[derive(Debug)]
pub struct UpdateCardRequest {
    pub question: Option<String>,
    pub answer: Option<String>,
    pub deck_id: Option<i32>,
}

/// A card as it is handed back to a client.
#[derive(Debug)]
pub struct CardResponse {
    pub id: i32,
    pub question: String,
    pub answer: String,
    pub deck_id: i32,
    pub created_at: i64,
    pub updated_at: i64,
}

/// Every field of the row, unchanged.
pub open spec fn deck_response(d: deck::Model) -> DeckResponse {
    DeckResponse {
        id: d.id,
        name: d.name,
        description: d.description,
        created_at: d.created_at,
        updated_at: d.updated_at,
    }
}

/// Every field of the row, unchanged.
pub open spec fn card_response(c: card::Model) -> CardResponse {
    CardResponse {
        id: c.id,
        question: c.question,
        answer: c.answer,
        deck_id: c.deck_id,
        created_at: c.created_at,
        updated_at: c.updated_at,
    }
}

impl From<deck::Model> for DeckResponse {
    fn from(d: deck::Model) -> (r: DeckResponse) {
        DeckResponse {
            id: d.id,
            name: d.name,
            description: d.description,
            created_at: d.created_at,
            updated_at: d.updated_at,
        }
    }
}

impl vstd::std_specs::convert::FromSpecImpl<deck::Model> for DeckResponse {
    open spec fn obeys_from_spec() -> bool {
        true
    }

    open spec fn from_spec(d: deck::Model) -> DeckResponse {
        deck_response(d)
    }
}

impl From<card::Model> for CardResponse {
    fn from(c: card::Model) -> (r: CardResponse) {
        CardResponse {
            id: c.id,
            question: c.question,
            answer: c.answer,
            deck_id: c.deck_id,
            created_at: c.created_at,
            updated_at: c.updated_at,
        }
    }
}

impl vstd::std_specs::convert::FromSpecImpl<card::Model> for CardResponse {
    open spec fn obeys_from_spec() -> bool {
        true
    }

    open spec fn from_spec(c: card::Model) -> CardResponse {
        card_response(c)
    }
}

/// The outcome of a lookup of the resource that a request addresses: a
/// missing row is `NotFound`.
pub open spec fn addressed_outcome<T>(found: Result<Option<T>, StorageError>) -> Result<T, ApiError> {
    match found {
        Ok(Some(t)) => Ok(t),
        Ok(None) => Err(ApiError::NotFound),
        Err(_) => Err(ApiError::StorageFailure),
    }
}

/// Decides on the lookup of the resource that a request addresses.
pub fn require_addressed<T>(found: Result<Option<T>, StorageError>) -> (r: Result<T, ApiError>)
    ensures
        r == addressed_outcome(found),
{
    match found {
        Ok(Some(t)) => Ok(t),
        Ok(None) => Err(ApiError::NotFound),
        Err(_) => Err(ApiError::StorageFailure),
    }
}

/// The outcome of checking a deck that a payload refers to: a missing deck
/// is the client's fault, a `ValidationFailure`.
pub open spec fn reference_outcome(found: Result<bool, StorageError>) -> Result<(), ApiError> {
    match found {
        Ok(true) => Ok(()),
        Ok(false) => Err(ApiError::ValidationFailure),
        Err(_) => Err(ApiError::StorageFailure),
    }
}

/// Decides on the existence check of a deck that a payload refers to.
pub fn require_reference(found: Result<bool, StorageError>) -> (r: Result<(), ApiError>)
    ensures
        r == reference_outcome(found),
{
    match found {
        Ok(true) => Ok(()),
        Ok(false) => Err(ApiError::ValidationFailure),
        Err(_) => Err(ApiError::StorageFailure),
    }
}

/// The outcome of a delete: exactly one row removed is success, none is
/// `NotFound`.
pub open spec fn delete_outcome(rows: Result<u64, StorageError>) -> Result<(), ApiError> {
    match rows {
        Ok(n) => if n == 1 {
            Ok(())
        } else {
            Err(ApiError::NotFound)
        },
        Err(_) => Err(ApiError::StorageFailure),
    }
}

/// Decides on the number of rows that a delete removed.
pub fn require_deleted(rows: Result<u64, StorageError>) -> (r: Result<(), ApiError>)
    ensures
        r == delete_outcome(rows),
{
    match rows {
        Ok(n) => if n == 1 {
            Ok(())
        } else {
            Err(ApiError::NotFound)
        },
        Err(_) => Err(ApiError::StorageFailure),
    }
}

pub open spec fn deck_responses(s: Seq<deck::Model>) -> Seq<DeckResponse> {
    s.map_values(|d: deck::Model| deck_response(d))
}

pub open spec fn card_responses(s: Seq<card::Model>) -> Seq<CardResponse> {
    s.map_values(|c: card::Model| card_response(c))
}

/// Converts each row, in order.
pub fn to_deck_responses(rows: &Vec<deck::Model>) -> (r: Vec<DeckResponse>)
    ensures
        r@ == deck_responses(rows@),
{
    let mut out: Vec<DeckResponse> = Vec::new();
    let mut i: usize = 0;
    while i < rows.len()
        invariant
            0 <= i <= rows.len(),
            out@ == deck_responses(rows@.subrange(0, i as int)),
        decreases rows.len() - i,
    {
        out.push(DeckResponse::from(rows[i].duplicate()));
        i += 1;
        assert(out@ =~= deck_responses(rows@.subrange(0, i as int)));
    }
    assert(rows@.subrange(0, rows.len() as int) =~= rows@);
    out
}

/// Converts each row, in order.
pub fn to_card_responses(rows: &Vec<card::Model>) -> (r: Vec<CardResponse>)
    ensures
        r@ == card_responses(rows@),
{
    let mut out: Vec<CardResponse> = Vec::new();
    let mut i: usize = 0;
    while i < rows.len()
        invariant
            0 <= i <= rows.len(),
            out@ == card_responses(rows@.subrange(0, i as int)),
        decreases rows.len() - i,
    {
        out.push(CardResponse::from(rows[i].duplicate()));
        i += 1;
        assert(out@ =~= card_responses(rows@.subrange(0, i as int)));
    }
    assert(rows@.subrange(0, rows.len() as int) =~= rows@);
    out
}

/// The outcome of a write: any storage error is a `StorageFailure`.
pub open spec fn stored_outcome<T>(written: Result<T, StorageError>) -> Result<T, ApiError> {
    match written {
        Ok(t) => Ok(t),
        Err(_) => Err(ApiError::StorageFailure),
    }
}

/// Decides on the result of a write.
pub fn require_stored<T>(written: Result<T, StorageError>) -> (r: Result<T, ApiError>)
    ensures
        r == stored_outcome(written),
{
    match written {
        Ok(t) => Ok(t),
        Err(_) => Err(ApiError::StorageFailure),
    }
}

/// What a card creation does once the existence of its deck has been looked
/// up: the request to insert, or the error to report. A failed lookup is a
/// `StorageFailure` and a missing deck a `ValidationFailure`; neither
/// inserts anything.
pub open spec fn create_card_step(deck_found: Result<bool, StorageError>, payload: CreateCardRequest) -> Result<
    CreateCardRequest,
    ApiError,
> {
    match reference_outcome(deck_found) {
        Ok(_) => Ok(payload),
        Err(e) => Err(e),
    }
}

/// Decides a card creation from the lookup of its deck.
pub fn create_card_next(deck_found: Result<bool, StorageError>, payload: CreateCardRequest) -> (r:
    Result<CreateCardRequest, ApiError>)
    ensures
        r == create_card_step(deck_found, payload),
{
    match require_reference(deck_found) {
        Ok(()) => Ok(payload),
        Err(e) => Err(e),
    }
}

/// What a deck update does once the deck has been looked up: the row to
/// write, or the error to report.
pub open spec fn update_deck_step(
    existing: Result<Option<deck::Model>, StorageError>,
    payload: UpdateDeckRequest,
    now: i64,
) -> Result<deck::Model, ApiError> {
    match addressed_outcome(existing) {
        Ok(d) => Ok(deck::updated_deck(d, payload, now)),
        Err(e) => Err(e),
    }
}

/// Decides a deck update from the lookup of the deck.
pub fn update_deck_next(
    existing: Result<Option<deck::Model>, StorageError>,
    payload: UpdateDeckRequest,
    now: i64,
) -> (r: Result<deck::Model, ApiError>)
    ensures
        r == update_deck_step(existing, payload, now),
{
    match require_addressed(existing) {
        Ok(d) => Ok(d.apply_update(payload, now)),
        Err(e) => Err(e),
    }
}

/// What a card update does once the card has been looked up and, when the
/// update supplies a `deck_id`, that deck too: the row to write, or the
/// error to report. The card's own lookup decides first; then a failed deck
/// lookup is a `StorageFailure` and a missing deck a `ValidationFailure`.
pub open spec fn update_card_step(
    existing: Result<Option<card::Model>, StorageError>,
    payload: UpdateCardRequest,
    deck_found: Option<Result<bool, StorageError>>,
    now: i64,
) -> Result<card::Model, ApiError> {
    match addressed_outcome(existing) {
        Ok(c) => {
            let checked = match deck_found {
                Some(f) => reference_outcome(f),
                None => Ok(()),
            };
            match checked {
                Ok(_) => Ok(card::updated_card(c, payload, now)),
                Err(e) => Err(e),
            }
        },
        Err(e) => Err(e),
    }
}

/// Decides a card update from the lookups of the card and of the deck it
/// names, which is looked up exactly when the update supplies a `deck_id`.
pub fn update_card_next(
    existing: Result<Option<card::Model>, StorageError>,
    payload: UpdateCardRequest,
    deck_found: Option<Result<bool, StorageError>>,
    now: i64,
) -> (r: Result<card::Model, ApiError>)
    requires
        payload.deck_id is Some <==> deck_found is Some,
    ensures
        r == update_card_step(existing, payload, deck_found, now),
        r is Ok ==> (existing matches Ok(Some(_))),
        r is Ok && payload.deck_id is Some ==> deck_found == Some(Ok::<bool, StorageError>(true)),
{
    let c = match require_addressed(existing) {
        Ok(c) => c,
        Err(e) => return Err(e),
    };
    if let Some(f) = deck_found {
        if let Err(e) = require_reference(f) {
            return Err(e);
        }
    }
    Ok(c.apply_update(payload, now))
}

} // verus!
