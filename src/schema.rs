//! The relational schema: two tables and the foreign key that ties a card to
//! its deck, described as values that a migration runner applies in order.
use vstd::prelude::*;

verus! {

#[derive(Debug, Clone, Copy, PartialEq, Eq, Structural)]
pub enum Table {
    Decks,
    Cards,
}

#[derive(Debug, Clone, Copy, PartialEq, Eq, Structural)]
pub enum Column {
    Id,
    Name,
    Description,
    Question,
    Answer,
    DeckId,
    CreatedAt,
    UpdatedAt,
}

#[derive(Debug, Clone, Copy, PartialEq, Eq, Structural)]
pub enum ColumnKind {
    Integer,
    Text,
    TimestampWithTimeZone,
}

/// One column: its type, whether it may be null, and how its value is
/// produced when an insert leaves it out.
#[derive(Debug, Clone, Copy, PartialEq, Eq, Structural)]
pub struct ColumnSpec {
    pub column: Column,
    pub kind: ColumnKind,
    pub nullable: bool,
    pub primary_key: bool,
    pub auto_increment: bool,
    pub default_now: bool,
}

/// A foreign key from one column to another table's column.
#[derive(Debug, Clone, Copy, PartialEq, Eq, Structural)]
pub struct ForeignKeySpec {
    pub from_table: Table,
    pub from_column: Column,
    pub to_table: Table,
    pub to_column: Column,
    pub cascade_delete: bool,
}

/// A table to create, if it does not exist yet.
#[derive(Debug)]
pub struct TableSpec {
    pub table: Table,
    pub columns: Vec<ColumnSpec>,
    pub foreign_keys: Vec<ForeignKeySpec>,
    /// Whether an existing table of that name is left as it is.
    pub if_not_exists: bool,
}

pub open spec fn table_name(t: Table) -> &'static str {
    match t {
        Table::Decks => "decks",
        Table::Cards => "cards",
    }
}

impl Table {
    /// The table's name in the database.
    pub fn name(&self) -> (r: &'static str)
        ensures
            r == table_name(*self),
    {
        match self {
            Table::Decks => "decks",
            Table::Cards => "cards",
        }
    }
}


pub open spec fn column_name(c: Column) -> &'static str {
    match c {
        Column::Id => "id",
        Column::Name => "name",
        Column::Description => "description",
        Column::Question => "question",
        Column::Answer => "answer",
        Column::DeckId => "deck_id",
        Column::CreatedAt => "created_at",
        Column::UpdatedAt => "updated_at",
    }
}

impl Column {
    /// The column's name in the database.
    pub fn name(&self) -> (r: &'static str)
        ensures
            r == column_name(*self),
    {
        match self {
            Column::Id => "id",
            Column::Name => "name",
            Column::Description => "description",
            Column::Question => "question",
            Column::Answer => "answer",
            Column::DeckId => "deck_id",
            Column::CreatedAt => "created_at",
            Column::UpdatedAt => "updated_at",
        }
    }
}

pub open spec fn card_deck_foreign_key() -> ForeignKeySpec {
    ForeignKeySpec {
        from_table: Table::Cards,
        from_column: Column::DeckId,
        to_table: Table::Decks,
        to_column: Column::Id,
        cascade_delete: true,
    }
}

/// The foreign key from a card's `deck_id` to its deck, whose deletion
/// deletes the card too.
pub fn card_deck_fk() -> (r: ForeignKeySpec)
    ensures
        r == card_deck_foreign_key(),
{
    ForeignKeySpec {
        from_table: Table::Cards,
        from_column: Column::DeckId,
        to_table: Table::Decks,
        to_column: Column::Id,
        cascade_delete: true,
    }
}

pub open spec fn key_column() -> ColumnSpec {
    ColumnSpec {
        column: Column::Id,
        kind: ColumnKind::Integer,
        nullable: false,
        primary_key: true,
        auto_increment: true,
        default_now: false,
    }
}

pub open spec fn plain_column(column: Column, kind: ColumnKind, nullable: bool) -> ColumnSpec {
    ColumnSpec { column, kind, nullable, primary_key: false, auto_increment: false, default_now: false }
}

pub open spec fn stamp_column(column: Column) -> ColumnSpec {
    ColumnSpec {
        column,
        kind: ColumnKind::TimestampWithTimeZone,
        nullable: false,
        primary_key: false,
        auto_increment: false,
        default_now: true,
    }
}

pub open spec fn deck_columns() -> Seq<ColumnSpec> {
    seq![
        key_column(),
        plain_column(Column::Name, ColumnKind::Text, false),
        plain_column(Column::Description, ColumnKind::Text, true),
        stamp_column(Column::CreatedAt),
        stamp_column(Column::UpdatedAt),
    ]
}

pub open spec fn card_columns() -> Seq<ColumnSpec> {
    seq![
        key_column(),
        plain_column(Column::Question, ColumnKind::Text, false),
        plain_column(Column::Answer, ColumnKind::Text, false),
        plain_column(Column::DeckId, ColumnKind::Integer, false),
        stamp_column(Column::CreatedAt),
        stamp_column(Column::UpdatedAt),
    ]
}

fn key_col() -> (r: ColumnSpec)
    ensures
        r == key_column(),
{
    ColumnSpec {
        column: Column::Id,
        kind: ColumnKind::Integer,
        nullable: false,
        primary_key: true,
        auto_increment: true,
        default_now: false,
    }
}

fn plain_col(column: Column, kind: ColumnKind, nullable: bool) -> (r: ColumnSpec)
    ensures
        r == plain_column(column, kind, nullable),
{
    ColumnSpec { column, kind, nullable, primary_key: false, auto_increment: false, default_now: false }
}

fn stamp_col(column: Column) -> (r: ColumnSpec)
    ensures
        r == stamp_column(column),
{
    ColumnSpec {
        column,
        kind: ColumnKind::TimestampWithTimeZone,
        nullable: false,
        primary_key: false,
        auto_increment: false,
        default_now: true,
    }
}

/// The initial migration of the schema.
#[derive(Debug, Clone, Copy)]
pub struct Migration;

impl Migration {
    /// The tables to create, in order: decks first, since cards refer to it.
    /// Each is created only if it does not exist yet.
    pub fn up(&self) -> (r: Vec<TableSpec>)
        ensures
            r@.len() == 2,
            r@[0].table == Table::Decks,
            r@[0].if_not_exists,
            r@[1].if_not_exists,
            r@[0].columns@ == deck_columns(),
            r@[0].foreign_keys@ == Seq::<ForeignKeySpec>::empty(),
            r@[1].table == Table::Cards,
            r@[1].columns@ == card_columns(),
            r@[1].foreign_keys@ == seq![card_deck_foreign_key()],
    {
        let mut deck_cols: Vec<ColumnSpec> = Vec::new();
        deck_cols.push(key_col());
        deck_cols.push(plain_col(Column::Name, ColumnKind::Text, false));
        deck_cols.push(plain_col(Column::Description, ColumnKind::Text, true));
        deck_cols.push(stamp_col(Column::CreatedAt));
        deck_cols.push(stamp_col(Column::UpdatedAt));
        let mut card_cols: Vec<ColumnSpec> = Vec::new();
        card_cols.push(key_col());
        card_cols.push(plain_col(Column::Question, ColumnKind::Text, false));
        card_cols.push(plain_col(Column::Answer, ColumnKind::Text, false));
        card_cols.push(plain_col(Column::DeckId, ColumnKind::Integer, false));
        card_cols.push(stamp_col(Column::CreatedAt));
        card_cols.push(stamp_col(Column::UpdatedAt));
        let mut card_fks: Vec<ForeignKeySpec> = Vec::new();
        card_fks.push(card_deck_fk());
        assert(deck_cols@ =~= deck_columns());
        assert(card_cols@ =~= card_columns());
        assert(card_fks@ =~= seq![card_deck_foreign_key()]);
        let mut tables: Vec<TableSpec> = Vec::new();
        tables.push(TableSpec { table: Table::Decks, columns: deck_cols, foreign_keys: Vec::new(),
            if_not_exists: true,
        });
        tables.push(TableSpec { table: Table::Cards, columns: card_cols, foreign_keys: card_fks,
            if_not_exists: true,
        });
        tables
    }

    /// The tables to drop when the migration is undone, in order: cards
    /// first, since they refer to decks.
    pub fn down(&self) -> (r: Vec<Table>)
        ensures
            r@ == seq![Table::Cards, Table::Decks],
    {
        let mut tables: Vec<Table> = Vec::new();
        tables.push(Table::Cards);
        tables.push(Table::Decks);
        assert(tables@ =~= seq![Table::Cards, Table::Decks]);
        tables
    }
}

impl ForeignKeySpec {
    /// The constraint's name in the database.
    pub fn name(&self) -> (r: &'static str)
        ensures
            r == "fk-card-deck_id",
    {
        "fk-card-deck_id"
    }
}

} // verus!
