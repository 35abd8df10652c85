use crate::handlers::UpdateCardRequest;
use crate::schema::{card_deck_foreign_key, ForeignKeySpec};
use vstd::prelude::*;

verus! {

/// A stored card; `deck_id` names the deck that owns it.
#[derive(Debug)]
pub struct Model {
    pub id: i32,
    pub question: String,
    pub answer: String,
    pub deck_id: i32,
    pub created_at: i64,
    pub updated_at: i64,
}

/// The row a card becomes after a partial update: each supplied field
/// replaces the stored one, and `updated_at` becomes `now`.
pub open spec fn updated_card(c: Model, patch: UpdateCardRequest, now: i64) -> Model {
    Model {
        id: c.id,
        question: match patch.question {
            Some(q) => q,
            None => c.question,
        },
        answer: match patch.answer {
            Some(a) => a,
            None => c.answer,
        },
        deck_id: match patch.deck_id {
            Some(d) => d,
            None => c.deck_id,
        },
        created_at: c.created_at,
        updated_at: now,
    }
}

impl Model {
    /// An independent copy of this row.
    pub fn duplicate(&self) -> (r: Model)
        ensures
            r == *self,
    {
        Model {
            id: self.id,
            question: self.question.clone(),
            answer: self.answer.clone(),
            deck_id: self.deck_id,
            created_at: self.created_at,
            updated_at: self.updated_at,
        }
    }

    /// Applies a partial update: only the supplied fields change, and
    /// `updated_at` becomes `now`.
    pub fn apply_update(self, patch: UpdateCardRequest, now: i64) -> (r: Model)
        ensures
            r == updated_card(self, patch, now),
    {
        let question = match patch.question {
            Some(q) => q,
            None => self.question,
        };
        let answer = match patch.answer {
            Some(a) => a,
            None => self.answer,
        };
        let deck_id = match patch.deck_id {
            Some(d) => d,
            None => self.deck_id,
        };
        Model { id: self.id, question, answer, deck_id, created_at: self.created_at, updated_at: now }
    }
}

/// The relations of the card table.
#[derive(Debug, Clone, Copy, PartialEq, Eq, Structural)]
pub enum Relation {
    /// A card belongs to one deck.
    Deck,
}

impl Relation {
    /// The foreign key that realises this relation.
    pub fn def(&self) -> (r: ForeignKeySpec)
        ensures
            r == card_deck_foreign_key(),
    {
        match self {
            Relation::Deck => crate::schema::card_deck_fk(),
        }
    }
}

} // verus!
