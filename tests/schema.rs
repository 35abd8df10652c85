use flashdeck::models::{card, deck};
use flashdeck::schema::{Column, ColumnKind, Migration, Table};

#[test]
fn migration_creates_decks_before_cards() {
    let tables = Migration.up();
    assert_eq!(tables.len(), 2);
    assert_eq!(tables[0].table, Table::Decks);
    assert_eq!(tables[1].table, Table::Cards);
    assert_eq!(tables[0].table.name(), "decks");
    assert_eq!(tables[1].table.name(), "cards");
    assert!(tables[0].foreign_keys.is_empty());
    assert!(tables[0].if_not_exists);
    assert!(tables[1].if_not_exists);
    assert_eq!(tables[0].columns.len(), 5);
    assert_eq!(tables[1].columns.len(), 6);
    let id = tables[0].columns[0];
    assert!(id.primary_key && id.auto_increment && !id.nullable);
    let description = tables[0].columns[2];
    assert_eq!(description.column, Column::Description);
    assert!(description.nullable);
    let deck_id = tables[1].columns[3];
    assert_eq!(deck_id.column, Column::DeckId);
    assert_eq!(deck_id.kind, ColumnKind::Integer);
    assert!(!deck_id.nullable);
}

#[test]
fn card_deck_key_cascades() {
    let tables = Migration.up();
    assert_eq!(tables[1].foreign_keys.len(), 1);
    let fk = tables[1].foreign_keys[0];
    assert_eq!(fk.from_table, Table::Cards);
    assert_eq!(fk.from_column, Column::DeckId);
    assert_eq!(fk.to_table, Table::Decks);
    assert_eq!(fk.to_column, Column::Id);
    assert!(fk.cascade_delete);
    assert_eq!(fk.name(), "fk-card-deck_id");
    assert_eq!(deck::Relation::Card.def(), fk);
    assert_eq!(card::Relation::Deck.def(), fk);
}

#[test]
fn migration_drops_cards_first() {
    assert_eq!(Migration.down(), vec![Table::Cards, Table::Decks]);
}
