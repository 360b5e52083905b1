//! What the schema editor knows of a database: the engines it speaks to, a
//! table and the column, index, and foreign key definitions read from it, the
//! SQL SQLite stored for a table, and how an identifier is written.

use vstd::prelude::*;
use crate::sqltext::is_bare;
use crate::text::{chars_of, string_of};

verus! {

/// The database engines the client speaks to.
#[derive(Clone, Copy, PartialEq, Eq, Structural, Debug)]
pub enum Engine {
    Postgres,
    MySql,
    Sqlite,
}

/// What kind of object a name in the catalogue is.
#[derive(Clone, Copy, PartialEq, Eq, Structural, Debug)]
pub enum ObjectKind {
    Table,
    View,
}

/// A table or view, by its optional schema and its name.
#[derive(Clone, Debug)]
pub struct DatabaseObject {
    pub schema: Option<String>,
    pub name: String,
    pub kind: ObjectKind,
}

/// A column as the server describes it.
#[derive(Clone, Debug)]
pub struct ColumnDef {
    pub name: String,
    pub data_type: String,
    pub nullable: bool,
    /// The default expression, as the server prints it.
    pub default: Option<String>,
    pub is_primary_key: bool,
    /// What MySQL's `EXTRA` column says of it (such as `auto_increment`);
    /// empty elsewhere.
    pub mysql_extra: String,
}

/// An index as the server describes it, its columns in key order.
#[derive(Clone, Debug)]
pub struct IndexDef {
    pub name: String,
    pub columns: Vec<String>,
    pub unique: bool,
    pub is_primary_key: bool,
}

/// What a foreign key does when the row it points at is deleted or updated.
#[derive(Clone, Copy, PartialEq, Eq, Structural, Debug)]
pub enum ReferentialAction {
    NoAction,
    Restrict,
    Cascade,
    SetNull,
    SetDefault,
}

/// The action as SQL writes it.
pub open spec fn action_label(action: ReferentialAction) -> Seq<char> {
    match action {
        ReferentialAction::NoAction => "NO ACTION"@,
        ReferentialAction::Restrict => "RESTRICT"@,
        ReferentialAction::Cascade => "CASCADE"@,
        ReferentialAction::SetNull => "SET NULL"@,
        ReferentialAction::SetDefault => "SET DEFAULT"@,
    }
}

impl ReferentialAction {
    /// The action as SQL writes it.
    pub fn label(self) -> (r: &'static str)
        ensures
            r@ == action_label(self),
    {
        match self {
            ReferentialAction::NoAction => "NO ACTION",
            ReferentialAction::Restrict => "RESTRICT",
            ReferentialAction::Cascade => "CASCADE",
            ReferentialAction::SetNull => "SET NULL",
            ReferentialAction::SetDefault => "SET DEFAULT",
        }
    }
}

/// A foreign key as the server describes it.
#[derive(Clone, Debug)]
pub struct ForeignKeyDef {
    pub name: String,
    pub columns: Vec<String>,
    pub referenced_schema: Option<String>,
    pub referenced_table: String,
    pub referenced_columns: Vec<String>,
    pub on_delete: ReferentialAction,
    pub on_update: ReferentialAction,
}

/// One object's `CREATE` statement, as SQLite stored it.
#[derive(Clone, Debug)]
pub struct StoredDefinition {
    pub name: String,
    pub sql: String,
}

/// What a SQLite table rebuild starts from: the table's own `CREATE TABLE`,
/// and the stored SQL of what has to be put back on top of it.
#[derive(Clone, Debug)]
pub struct RebuildSource {
    pub table_sql: String,
    /// The table's explicit indexes; an index behind a `UNIQUE` or
    /// `PRIMARY KEY` constraint has no SQL of its own and is not here.
    pub indexes: Vec<StoredDefinition>,
    pub triggers: Vec<StoredDefinition>,
    /// Every view in the database; which ones read the table is for the
    /// rebuild to find out.
    pub views: Vec<StoredDefinition>,
}

impl Default for RebuildSource {
    fn default() -> (r: Self)
        ensures
            r.table_sql@ == Seq::<char>::empty(),
            r.indexes@.len() == 0,
            r.triggers@.len() == 0,
            r.views@.len() == 0,
    {
        RebuildSource {
            table_sql: String::new(),
            indexes: Vec::new(),
            triggers: Vec::new(),
            views: Vec::new(),
        }
    }
}

/// The character an engine quotes identifiers with.
pub open spec fn quote_char(engine: Engine) -> char {
    if engine == Engine::MySql {
        '`'
    } else {
        '"'
    }
}

/// `name` as an identifier on `engine`: bare when it can be, otherwise
/// quoted, with a quote inside it doubled.
pub open spec fn quoted(name: Seq<char>, engine: Engine) -> Seq<char> {
    if crate::sqltext::bare(name) {
        name
    } else {
        seq![quote_char(engine)] + crate::sqltext::doubled(name, quote_char(engine)) + seq![
            quote_char(engine),
        ]
    }
}

/// `name` as an identifier on `engine`.
pub fn quote_identifier(name: &str, engine: Engine) -> (r: String)
    ensures
        r@ == quoted(name@, engine),
{
    let v = chars_of(name);
    if is_bare(&v) {
        return string_of(&v);
    }
    let mut original: Vec<char> = Vec::new();
    if engine == Engine::MySql {
        original.push('`');
    }
    let q = crate::sqltext::quote_like(&original, &v);
    string_of(&q)
}

} // verus!
