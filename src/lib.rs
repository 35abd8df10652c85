//! Flashcard decks and cards: the rows, the relational schema that ties a
//! card to its deck, an in-memory store that keeps that tie, and the
//! operations on decks and cards with the errors they report.
pub mod error;
pub mod handlers;
pub mod laws;
pub mod models;
pub mod schema;
pub mod store;
