use crate::handlers::UpdateDeckRequest;
use crate::schema::{card_deck_foreign_key, ForeignKeySpec};
use vstd::prelude::*;

verus! {

/// A stored deck.
#[derive(Debug)]
pub struct Model {
    pub id: i32,
    pub name: String,
    pub description: Option<String>,
    pub created_at: i64,
    pub updated_at: i64,
}

/// The row a deck becomes after a partial update: each supplied field
/// replaces the stored one, and `updated_at` becomes `now`.
pub open spec fn updated_deck(d: Model, patch: UpdateDeckRequest, now: i64) -> Model {
    Model {
        id: d.id,
        name: match patch.name {
            Some(n) => n,
            None => d.name,
        },
        description: if patch.description is Some {
            patch.description
        } else {
            d.description
        },
        created_at: d.created_at,
        updated_at: now,
    }
}

fn copy_text(s: &Option<String>) -> (r: Option<String>)
    ensures
        r == *s,
{
    match s {
        Some(t) => Some(t.clone()),
        None => None,
    }
}

impl Model {
    /// An independent copy of this row.
    pub fn duplicate(&self) -> (r: Model)
        ensures
            r == *self,
    {
        Model {
            id: self.id,
            name: self.name.clone(),
            description: copy_text(&self.description),
            created_at: self.created_at,
            updated_at: self.updated_at,
        }
    }

    /// Applies a partial update. A present description replaces the stored
    /// one even when it is empty; an absent one leaves it as it was.
    pub fn apply_update(self, patch: UpdateDeckRequest, now: i64) -> (r: Model)
        ensures
            r == updated_deck(self, patch, now),
    {
        let name = match patch.name {
            Some(n) => n,
            None => self.name,
        };
        let description = if patch.description.is_some() {
            patch.description
        } else {
            self.description
        };
        Model { id: self.id, name, description, created_at: self.created_at, updated_at: now }
    }
}

/// The relations of the deck table.
#[derive(Debug, Clone, Copy, PartialEq, Eq, Structural)]
pub enum Relation {
    /// A deck has many cards.
    Card,
}

impl Relation {
    /// The foreign key that realises this relation.
    pub fn def(&self) -> (r: ForeignKeySpec)
        ensures
            r == card_deck_foreign_key(),
    {
        match self {
            Relation::Card => crate::schema::card_deck_fk(),
        }
    }
}

} // verus!
