//! The `ALTER TABLE` statements the schema editor generates for its column,
//! index, and foreign key edits, on engines that change a table in place.

use vstd::prelude::*;
use crate::db::{
    ColumnDef, DatabaseObject, Engine, ForeignKeyDef, IndexDef, ReferentialAction, quote_identifier,
};
use crate::db;
use crate::text;
use crate::text::{copy_string, is_blank, join_strings, opt_text_eq};

verus! {

/// One column row as the user has edited it, ready to be diffed against
/// `original` and turned into SQL.
#[derive(Clone, Debug)]
pub struct ColumnEdit {
    /// `None` for a column added by hand; it has nothing on the server yet.
    pub original: Option<ColumnDef>,
    pub name: String,
    pub data_type: String,
    pub nullable: bool,
    /// Raw expression text, written after `DEFAULT` verbatim.
    pub default: Option<String>,
    /// Only meaningful when `original` is `Some`: a dropped new column is
    /// removed from the row list instead.
    pub dropped: bool,
}

impl ColumnEdit {
    pub open spec fn new_spec(&self) -> bool {
        self.original is None
    }

    pub open spec fn renamed_spec(&self) -> bool {
        match self.original {
            Some(o) => o.name@ != self.name@,
            None => false,
        }
    }

    pub open spec fn retyped_spec(&self) -> bool {
        match self.original {
            Some(o) => o.data_type@ != self.data_type@,
            None => false,
        }
    }

    pub open spec fn nullability_changed_spec(&self) -> bool {
        match self.original {
            Some(o) => o.nullable != self.nullable,
            None => false,
        }
    }

    pub open spec fn default_changed_spec(&self) -> bool {
        match self.original {
            Some(o) => text::opt_view(o.default) != text::opt_view(self.default),
            None => false,
        }
    }

    /// An existing, kept column with anything different about it.
    pub open spec fn changed_spec(&self) -> bool {
        !self.dropped && !self.new_spec() && (self.renamed_spec() || self.retyped_spec()
            || self.nullability_changed_spec() || self.default_changed_spec())
    }

    /// An existing, kept column changed in a way only a SQLite rebuild can
    /// express: its type, nullability, or default.
    pub open spec fn rebuilds_spec(&self) -> bool {
        !self.dropped && !self.new_spec() && (self.retyped_spec()
            || self.nullability_changed_spec() || self.default_changed_spec())
    }

    /// Whether the column was added by hand.
    pub fn is_new(&self) -> (r: bool)
        ensures
            r == self.new_spec(),
    {
        self.original.is_none()
    }

    pub fn renamed(&self) -> (r: bool)
        ensures
            r == self.renamed_spec(),
    {
        match &self.original {
            Some(o) => o.name != self.name,
            None => false,
        }
    }

    pub fn retyped(&self) -> (r: bool)
        ensures
            r == self.retyped_spec(),
    {
        match &self.original {
            Some(o) => o.data_type != self.data_type,
            None => false,
        }
    }

    pub fn nullability_changed(&self) -> (r: bool)
        ensures
            r == self.nullability_changed_spec(),
    {
        match &self.original {
            Some(o) => o.nullable != self.nullable,
            None => false,
        }
    }

    pub fn default_changed(&self) -> (r: bool)
        ensures
            r == self.default_changed_spec(),
    {
        match &self.original {
            Some(o) => !opt_text_eq(&o.default, &self.default),
            None => false,
        }
    }

    /// Whether an existing, kept column has anything different about it.
    pub fn changed(&self) -> (r: bool)
        ensures
            r == self.changed_spec(),
    {
        !self.dropped && !self.is_new() && (self.renamed() || self.retyped()
            || self.nullability_changed() || self.default_changed())
    }

    /// Whether the edit needs SQLite's copy-and-swap rather than its own
    /// `ALTER TABLE`.
    pub fn rebuilds(&self) -> (r: bool)
        ensures
            r == self.rebuilds_spec(),
    {
        !self.dropped && !self.is_new() && (self.retyped() || self.nullability_changed()
            || self.default_changed())
    }
}

/// One index row: a whole index added or a whole one dropped, never
/// modified in place.
#[derive(Clone, Debug)]
pub struct IndexEdit {
    /// `None` for an index added by hand.
    pub original: Option<IndexDef>,
    pub name: String,
    /// In the order picked: order matters for a composite index.
    pub columns: Vec<String>,
    pub unique: bool,
    pub primary_key: bool,
    /// Only meaningful when `original` is `Some`.
    pub dropped: bool,
}

impl IndexEdit {
    pub open spec fn new_spec(&self) -> bool {
        self.original is None
    }

    /// Whether the index was added by hand.
    pub fn is_new(&self) -> (r: bool)
        ensures
            r == self.new_spec(),
    {
        self.original.is_none()
    }
}

/// One foreign key row: a whole relationship added or a whole one dropped,
/// never modified in place.
#[derive(Clone, Debug)]
pub struct ForeignKeyEdit {
    /// `None` for a foreign key added by hand.
    pub original: Option<ForeignKeyDef>,
    pub name: String,
    /// Local columns, matching `referenced_columns` one for one.
    pub columns: Vec<String>,
    pub referenced_schema: Option<String>,
    pub referenced_table: String,
    pub referenced_columns: Vec<String>,
    pub on_delete: ReferentialAction,
    pub on_update: ReferentialAction,
    /// Only meaningful when `original` is `Some`.
    pub dropped: bool,
}

impl ForeignKeyEdit {
    pub open spec fn new_spec(&self) -> bool {
        self.original is None
    }

    /// A dropped existing key, or a new one complete enough to write: some
    /// columns, a table, and as many referenced columns as local ones.
    pub open spec fn wants_spec(&self) -> bool {
        if self.dropped {
            self.original is Some
        } else {
            self.original is None && self.columns@.len() > 0 && !text::blank(
                self.referenced_table@,
            ) && self.referenced_columns@.len() == self.columns@.len()
        }
    }

    /// Whether the foreign key was added by hand.
    pub fn is_new(&self) -> (r: bool)
        ensures
            r == self.new_spec(),
    {
        self.original.is_none()
    }

    /// Whether the row asks for a statement of its own: a dropped existing
    /// key, or a new one that is complete.
    pub fn wants_a_statement(&self) -> (r: bool)
        ensures
            r == self.wants_spec(),
    {
        if self.dropped {
            self.original.is_some()
        } else {
            self.original.is_none() && self.columns.len() > 0 && !is_blank(
                self.referenced_table.as_str(),
            ) && self.referenced_columns.len() == self.columns.len()
        }
    }
}

/// `object`, qualified and quoted.
pub open spec fn target_spec(object: DatabaseObject, engine: Engine) -> Seq<char> {
    match object.schema {
        Some(schema) => db::quoted(schema@, engine) + "."@ + db::quoted(object.name@, engine),
        None => db::quoted(object.name@, engine),
    }
}

/// `object`, qualified and quoted.
pub fn target(object: &DatabaseObject, engine: Engine) -> (r: String)
    ensures
        r@ == target_spec(*object, engine),
{
    match &object.schema {
        Some(schema) => {
            let mut r = quote_identifier(schema.as_str(), engine);
            r.append(".");
            let name = quote_identifier(object.name.as_str(), engine);
            r.append(name.as_str());
            r
        },
        None => quote_identifier(object.name.as_str(), engine),
    }
}

/// The common types each engine's column type list offers.
pub open spec fn common_types_spec(engine: Engine) -> Seq<Seq<char>> {
    match engine {
        Engine::Postgres => seq![
            "text"@,
            "varchar(255)"@,
            "integer"@,
            "bigint"@,
            "smallint"@,
            "boolean"@,
            "numeric"@,
            "real"@,
            "double precision"@,
            "date"@,
            "timestamp"@,
            "timestamptz"@,
            "uuid"@,
            "jsonb"@,
        ],
        Engine::MySql => seq![
            "varchar(255)"@,
            "text"@,
            "int"@,
            "bigint"@,
            "smallint"@,
            "boolean"@,
            "decimal(10,2)"@,
            "float"@,
            "double"@,
            "date"@,
            "datetime"@,
            "timestamp"@,
            "json"@,
        ],
        Engine::Sqlite => seq!["TEXT"@, "INTEGER"@, "REAL"@, "NUMERIC"@, "BLOB"@],
    }
}

/// A short, fixed list of common types for the column type dropdown. Not
/// exhaustive, but enough for the common case. SQLite's are its five storage
/// classes.
pub fn common_types(engine: Engine) -> (r: Vec<&'static str>)
    ensures
        r@.map_values(|s: &str| s@) == common_types_spec(engine),
{
    let mut v: Vec<&'static str> = Vec::new();
    match engine {
        Engine::Postgres => {
            v.push("text");
            v.push("varchar(255)");
            v.push("integer");
            v.push("bigint");
            v.push("smallint");
            v.push("boolean");
            v.push("numeric");
            v.push("real");
            v.push("double precision");
            v.push("date");
            v.push("timestamp");
            v.push("timestamptz");
            v.push("uuid");
            v.push("jsonb");
        },
        Engine::MySql => {
            v.push("varchar(255)");
            v.push("text");
            v.push("int");
            v.push("bigint");
            v.push("smallint");
            v.push("boolean");
            v.push("decimal(10,2)");
            v.push("float");
            v.push("double");
            v.push("date");
            v.push("datetime");
            v.push("timestamp");
            v.push("json");
        },
        Engine::Sqlite => {
            v.push("TEXT");
            v.push("INTEGER");
            v.push("REAL");
            v.push("NUMERIC");
            v.push("BLOB");
        },
    }
    assert(v@.map_values(|s: &str| s@) =~= common_types_spec(engine));
    v
}

/// `name type [NOT NULL] [DEFAULT expr]`, the shape an `ADD COLUMN` and every
/// engine's full column redefinition share.
pub open spec fn clause_spec(engine: Engine, edit: ColumnEdit) -> Seq<char> {
    let base = db::quoted(edit.name@, engine) + " "@ + edit.data_type@;
    let with_null = if !edit.nullable {
        base + " NOT NULL"@
    } else {
        base
    };
    match edit.default {
        Some(d) => with_null + " DEFAULT "@ + d@,
        None => with_null,
    }
}

/// `name type [NOT NULL] [DEFAULT expr]` for `edit`.
pub fn column_clause(engine: Engine, edit: &ColumnEdit) -> (r: String)
    ensures
        r@ == clause_spec(engine, *edit),
{
    let mut clause = quote_identifier(edit.name.as_str(), engine);
    clause.append(" ");
    clause.append(edit.data_type.as_str());
    if !edit.nullable {
        clause.append(" NOT NULL");
    }
    if let Some(default) = &edit.default {
        clause.append(" DEFAULT ");
        clause.append(default.as_str());
    }
    clause
}

/// `ALTER TABLE target` followed by `rest`.
pub open spec fn alter(target: Seq<char>, rest: Seq<char>) -> Seq<char> {
    "ALTER TABLE "@ + target + rest
}

pub fn alter_string(target: &str, rest: &str) -> (r: String)
    ensures
        r@ == alter(target@, rest@),
{
    let mut s = String::from_str("ALTER TABLE ");
    s.append(target);
    s.append(rest);
    s
}

/// The original name of an existing column.
pub open spec fn original_name(edit: ColumnEdit) -> Seq<char> {
    match edit.original {
        Some(o) => o.name@,
        None => Seq::empty(),
    }
}

/// Postgres: one statement per changed property, in an order where each
/// later one can still name the column by its current name.
pub open spec fn postgres_modify_spec(target: Seq<char>, edit: ColumnEdit) -> Seq<Seq<char>> {
    let engine = Engine::Postgres;
    let current = db::quoted(edit.name@, engine);
    let rename: Seq<Seq<char>> = if edit.renamed_spec() {
        seq![
            alter(
                target,
                " RENAME COLUMN "@ + db::quoted(original_name(edit), engine) + " TO "@
                    + current,
            ),
        ]
    } else {
        Seq::empty()
    };
    let retype: Seq<Seq<char>> = if edit.retyped_spec() {
        seq![
            alter(
                target,
                " ALTER COLUMN "@ + current + " TYPE "@ + edit.data_type@ + " USING "@ + current
                    + "::"@ + edit.data_type@,
            ),
        ]
    } else {
        Seq::empty()
    };
    let nullability: Seq<Seq<char>> = if edit.nullability_changed_spec() {
        seq![
            alter(
                target,
                " ALTER COLUMN "@ + current + " "@ + (if edit.nullable {
                    "DROP NOT NULL"@
                } else {
                    "SET NOT NULL"@
                }),
            ),
        ]
    } else {
        Seq::empty()
    };
    let default: Seq<Seq<char>> = if edit.default_changed_spec() {
        match edit.default {
            Some(expr) => seq![
                alter(target, " ALTER COLUMN "@ + current + " SET DEFAULT "@ + expr@),
            ],
            None => seq![alter(target, " ALTER COLUMN "@ + current + " DROP DEFAULT"@)],
        }
    } else {
        Seq::empty()
    };
    rename + retype + nullability + default
}

/// MySQL restates the whole column either way: `CHANGE COLUMN` for a rename,
/// `MODIFY COLUMN` otherwise.
pub open spec fn mysql_modify_spec(target: Seq<char>, edit: ColumnEdit) -> Seq<char> {
    let engine = Engine::MySql;
    if edit.renamed_spec() {
        alter(
            target,
            " CHANGE COLUMN "@ + db::quoted(original_name(edit), engine) + " "@ + clause_spec(
                engine,
                edit,
            ),
        )
    } else {
        alter(target, " MODIFY COLUMN "@ + clause_spec(engine, edit))
    }
}

/// Why SQLite's own `ALTER TABLE` cannot change a column's type,
/// nullability, or default.
pub open spec fn sqlite_refusal(name: Seq<char>) -> Seq<char> {
    "changing "@ + name
        + "'s type, nullability, or default is not supported on SQLite without rebuilding the table"@
}

/// The `RENAME COLUMN` that renames `edit` on `engine`.
pub open spec fn rename_spec(target: Seq<char>, edit: ColumnEdit, engine: Engine) -> Seq<char> {
    alter(
        target,
        " RENAME COLUMN "@ + db::quoted(original_name(edit), engine) + " TO "@ + db::quoted(
            edit.name@,
            engine,
        ),
    )
}

/// SQLite's plain `ALTER TABLE` only reaches a rename.
pub open spec fn sqlite_modify_spec(target: Seq<char>, edit: ColumnEdit) -> Result<
    Seq<Seq<char>>,
    Seq<char>,
> {
    if edit.retyped_spec() || edit.nullability_changed_spec() || edit.default_changed_spec() {
        Err(sqlite_refusal(original_name(edit)))
    } else {
        Ok(seq![rename_spec(target, edit, Engine::Sqlite)])
    }
}

/// The statements that bring one existing column up to date on `engine`.
pub open spec fn modify_spec(engine: Engine, target: Seq<char>, edit: ColumnEdit) -> Result<
    Seq<Seq<char>>,
    Seq<char>,
> {
    match engine {
        Engine::Postgres => Ok(postgres_modify_spec(target, edit)),
        Engine::MySql => Ok(seq![mysql_modify_spec(target, edit)]),
        Engine::Sqlite => sqlite_modify_spec(target, edit),
    }
}

/// What a changed column whose name is left blank is told.
pub open spec fn needs_a_name() -> Seq<char> {
    "a column needs a name"@
}

/// The modifications of `edits`' changed columns, in order; the first refusal
/// when there is one.
pub open spec fn modify_part(engine: Engine, target: Seq<char>, edits: Seq<ColumnEdit>) -> Result<
    Seq<Seq<char>>,
    Seq<char>,
>
    decreases edits.len(),
{
    if edits.len() == 0 {
        Ok(Seq::empty())
    } else {
        match modify_part(engine, target, edits.drop_last()) {
            Err(e) => Err(e),
            Ok(before) => {
                let edit = edits.last();
                if !edit.changed_spec() {
                    Ok(before)
                } else if text::blank(edit.name@) {
                    Err(needs_a_name())
                } else {
                    match modify_spec(engine, target, edit) {
                        Ok(s) => Ok(before + s),
                        Err(e) => Err(e),
                    }
                }
            },
        }
    }
}

/// Whether `edit` is a column added by hand that is there to add.
pub open spec fn adds(edit: ColumnEdit) -> bool {
    edit.new_spec() && !edit.dropped && !text::blank(edit.name@)
}

/// An `ADD COLUMN` for each column added by hand, in order.
pub open spec fn add_part(engine: Engine, target: Seq<char>, edits: Seq<ColumnEdit>) -> Seq<
    Seq<char>,
>
    decreases edits.len(),
{
    if edits.len() == 0 {
        Seq::empty()
    } else if adds(edits.last()) {
        add_part(engine, target, edits.drop_last()).push(
            alter(target, " ADD COLUMN "@ + clause_spec(engine, edits.last())),
        )
    } else {
        add_part(engine, target, edits.drop_last())
    }
}

/// A `DROP COLUMN` for each existing column marked for it, in order.
pub open spec fn drop_part(engine: Engine, target: Seq<char>, edits: Seq<ColumnEdit>) -> Seq<
    Seq<char>,
>
    decreases edits.len(),
{
    if edits.len() == 0 {
        Seq::empty()
    } else if edits.last().dropped && edits.last().original is Some {
        drop_part(engine, target, edits.drop_last()).push(
            alter(target, " DROP COLUMN "@ + db::quoted(original_name(edits.last()), engine)),
        )
    } else {
        drop_part(engine, target, edits.drop_last())
    }
}

/// Every statement `edits` call for, in order: modify existing columns
/// first, then add the new ones, then drop the ones marked for it.
pub open spec fn alter_statements_spec(
    engine: Engine,
    target: Seq<char>,
    edits: Seq<ColumnEdit>,
) -> Result<Seq<Seq<char>>, Seq<char>> {
    match modify_part(engine, target, edits) {
        Err(e) => Err(e),
        Ok(m) => Ok(m + add_part(engine, target, edits) + drop_part(engine, target, edits)),
    }
}

/// Whether an outcome of statements or a refusal is the one `expected`
/// describes.
pub open spec fn outcome_is(
    r: Result<Vec<String>, String>,
    expected: Result<Seq<Seq<char>>, Seq<char>>,
) -> bool {
    match (r, expected) {
        (Ok(v), Ok(s)) => text::views(v@) == s,
        (Err(e), Err(m)) => e@ == m,
        _ => false,
    }
}

pub fn push_statement(statements: &mut Vec<String>, s: String)
    ensures
        text::views(final(statements)@) == text::views(old(statements)@).push(s@),
{
    statements.push(s);
    assert(text::views(statements@) =~= text::views(old(statements)@).push(s@));
}

fn extend_statements(statements: &mut Vec<String>, more: Vec<String>)
    ensures
        text::views(final(statements)@) == text::views(old(statements)@) + text::views(more@),
{
    let mut i: usize = 0;
    while i < more.len()
        invariant
            i <= more.len(),
            text::views(statements@) == text::views(old(statements)@) + text::views(more@).take(
                i as int,
            ),
        decreases more.len() - i,
    {
        let s = copy_string(&more[i]);
        push_statement(statements, s);
        i = i + 1;
        assert(text::views(statements@) =~= text::views(old(statements)@) + text::views(
            more@,
        ).take(i as int));
    }
    assert(text::views(more@).take(more.len() as int) =~= text::views(more@));
}

/// Postgres: one statement per changed property.
pub fn postgres_modify(target: &str, edit: &ColumnEdit) -> (r: Vec<String>)
    requires
        edit.original is Some,
    ensures
        text::views(r@) == postgres_modify_spec(target@, *edit),
{
    let engine = Engine::Postgres;
    let mut statements: Vec<String> = Vec::new();
    let original = match &edit.original {
        Some(o) => o,
        None => {
            return statements;
        },
    };
    let current = quote_identifier(edit.name.as_str(), engine);
    if edit.renamed() {
        let mut rest = String::from_str(" RENAME COLUMN ");
        rest.append(quote_identifier(original.name.as_str(), engine).as_str());
        rest.append(" TO ");
        rest.append(current.as_str());
        push_statement(&mut statements, alter_string(target, rest.as_str()));
    }
    let ghost after_rename = text::views(statements@);
    if edit.retyped() {
        let mut rest = String::from_str(" ALTER COLUMN ");
        rest.append(current.as_str());
        rest.append(" TYPE ");
        rest.append(edit.data_type.as_str());
        rest.append(" USING ");
        rest.append(current.as_str());
        rest.append("::");
        rest.append(edit.data_type.as_str());
        push_statement(&mut statements, alter_string(target, rest.as_str()));
    }
    let ghost after_retype = text::views(statements@);
    if edit.nullability_changed() {
        let mut rest = String::from_str(" ALTER COLUMN ");
        rest.append(current.as_str());
        rest.append(" ");
        if edit.nullable {
            rest.append("DROP NOT NULL");
        } else {
            rest.append("SET NOT NULL");
        }
        push_statement(&mut statements, alter_string(target, rest.as_str()));
    }
    let ghost after_null = text::views(statements@);
    if edit.default_changed() {
        let mut rest = String::from_str(" ALTER COLUMN ");
        rest.append(current.as_str());
        match &edit.default {
            Some(expr) => {
                rest.append(" SET DEFAULT ");
                rest.append(expr.as_str());
            },
            None => {
                rest.append(" DROP DEFAULT");
            },
        }
        push_statement(&mut statements, alter_string(target, rest.as_str()));
    }
    assert(text::views(statements@) =~= postgres_modify_spec(target@, *edit));
    statements
}

/// MySQL: the whole column restated.
pub fn mysql_modify(target: &str, edit: &ColumnEdit) -> (r: String)
    requires
        edit.original is Some,
    ensures
        r@ == mysql_modify_spec(target@, *edit),
{
    let engine = Engine::MySql;
    let clause = column_clause(engine, edit);
    if edit.renamed() {
        let original_quoted = match &edit.original {
            Some(o) => quote_identifier(o.name.as_str(), engine),
            None => String::new(),
        };
        let mut rest = String::from_str(" CHANGE COLUMN ");
        rest.append(original_quoted.as_str());
        rest.append(" ");
        rest.append(clause.as_str());
        alter_string(target, rest.as_str())
    } else {
        let mut rest = String::from_str(" MODIFY COLUMN ");
        rest.append(clause.as_str());
        alter_string(target, rest.as_str())
    }
}

/// The `RENAME COLUMN` statement for `edit` on `engine`.
pub fn rename_statement(target: &str, edit: &ColumnEdit, engine: Engine) -> (r: String)
    requires
        edit.original is Some,
    ensures
        r@ == rename_spec(target@, *edit, engine),
{
    let original_quoted = match &edit.original {
        Some(o) => quote_identifier(o.name.as_str(), engine),
        None => String::new(),
    };
    let mut rest = String::from_str(" RENAME COLUMN ");
    rest.append(original_quoted.as_str());
    rest.append(" TO ");
    rest.append(quote_identifier(edit.name.as_str(), engine).as_str());
    alter_string(target, rest.as_str())
}

/// SQLite: a rename, or a refusal for anything a rebuild is needed for.
pub fn sqlite_modify(target: &str, edit: &ColumnEdit) -> (r: Result<Vec<String>, String>)
    requires
        edit.original is Some,
    ensures
        outcome_is(r, sqlite_modify_spec(target@, *edit)),
{
    if edit.retyped() || edit.nullability_changed() || edit.default_changed() {
        let mut message = String::from_str("changing ");
        if let Some(o) = &edit.original {
            message.append(o.name.as_str());
        }
        message.append(
            "'s type, nullability, or default is not supported on SQLite without rebuilding the table",
        );
        return Err(message);
    }
    let mut statements: Vec<String> = Vec::new();
    push_statement(&mut statements, rename_statement(target, edit, Engine::Sqlite));
    assert(text::views(statements@) =~= seq![rename_spec(target@, *edit, Engine::Sqlite)]);
    Ok(statements)
}

/// The statements that bring one existing column up to date on `engine`.
pub fn modify_statements(engine: Engine, target: &str, edit: &ColumnEdit) -> (r: Result<
    Vec<String>,
    String,
>)
    requires
        edit.original is Some,
    ensures
        outcome_is(r, modify_spec(engine, target@, *edit)),
{
    match engine {
        Engine::Postgres => Ok(postgres_modify(target, edit)),
        Engine::MySql => {
            let mut statements: Vec<String> = Vec::new();
            push_statement(&mut statements, mysql_modify(target, edit));
            assert(text::views(statements@) =~= seq![mysql_modify_spec(target@, *edit)]);
            Ok(statements)
        },
        Engine::Sqlite => sqlite_modify(target, edit),
    }
}

/// Every statement `edits` call for, in order: modify existing columns
/// first, then add the new ones, then drop the ones marked for it.
///
/// `Err` for a change the engine's own `ALTER TABLE` cannot express (SQLite's
/// column retype, left to its rebuild) or a changed column left without a
/// name.
pub fn generate_alter_statements(engine: Engine, target: &str, edits: &Vec<ColumnEdit>) -> (r:
    Result<Vec<String>, String>)
    ensures
        outcome_is(r, alter_statements_spec(engine, target@, edits@)),
{
    let mut statements: Vec<String> = Vec::new();
    let mut i: usize = 0;
    assert(edits@.take(0) =~= Seq::<ColumnEdit>::empty());
    assert(text::views(statements@) =~= Seq::<Seq<char>>::empty());
    while i < edits.len()
        invariant
            i <= edits.len(),
            modify_part(engine, target@, edits@.take(i as int)) == Ok::<
                Seq<Seq<char>>,
                Seq<char>,
            >(text::views(statements@)),
        decreases edits.len() - i,
    {
        let edit = &edits[i];
        assert(edits@.take(i + 1).drop_last() =~= edits@.take(i as int));
        assert(edits@.take(i + 1).last() == edits@[i as int]);
        if edit.changed() {
            if is_blank(edit.name.as_str()) {
                proof {
                    lemma_modify_part_err_stays(engine, target@, edits@, i + 1);
                }
                return Err(String::from_str("a column needs a name"));
            }
            match modify_statements(engine, target, edit) {
                Ok(more) => {
                    extend_statements(&mut statements, more);
                },
                Err(e) => {
                    proof {
                        lemma_modify_part_err_stays(engine, target@, edits@, i + 1);
                    }
                    return Err(e);
                },
            }
        }
        i = i + 1;
    }
    assert(edits@.take(edits.len() as int) =~= edits@);
    let ghost modified = text::views(statements@);

    let mut i: usize = 0;
    while i < edits.len()
        invariant
            i <= edits.len(),
            text::views(statements@) == modified + add_part(engine, target@, edits@.take(i as int)),
        decreases edits.len() - i,
    {
        let edit = &edits[i];
        assert(edits@.take(i + 1).drop_last() =~= edits@.take(i as int));
        assert(edits@.take(i + 1).last() == edits@[i as int]);
        if edit.is_new() && !edit.dropped && !is_blank(edit.name.as_str()) {
            let mut rest = String::from_str(" ADD COLUMN ");
            rest.append(column_clause(engine, edit).as_str());
            push_statement(&mut statements, alter_string(target, rest.as_str()));
        }
        i = i + 1;
    }
    let ghost added = text::views(statements@);

    let mut i: usize = 0;
    while i < edits.len()
        invariant
            i <= edits.len(),
            text::views(statements@) == added + drop_part(engine, target@, edits@.take(i as int)),
        decreases edits.len() - i,
    {
        let edit = &edits[i];
        assert(edits@.take(i + 1).drop_last() =~= edits@.take(i as int));
        assert(edits@.take(i + 1).last() == edits@[i as int]);
        if edit.dropped {
            if let Some(original) = &edit.original {
                let mut rest = String::from_str(" DROP COLUMN ");
                rest.append(quote_identifier(original.name.as_str(), engine).as_str());
                push_statement(&mut statements, alter_string(target, rest.as_str()));
            }
        }
        i = i + 1;
    }
    assert(text::views(statements@) =~= modified + add_part(engine, target@, edits@) + drop_part(
        engine,
        target@,
        edits@,
    ));
    Ok(statements)
}

/// Once a prefix of the edits is refused, every longer prefix is refused the
/// same way.
proof fn lemma_modify_part_err_stays(
    engine: Engine,
    target: Seq<char>,
    edits: Seq<ColumnEdit>,
    k: int,
)
    requires
        0 <= k <= edits.len(),
        modify_part(engine, target, edits.take(k)) is Err,
    ensures
        modify_part(engine, target, edits) == modify_part(engine, target, edits.take(k)),
    decreases edits.len() - k,
{
    if k < edits.len() {
        assert(edits.take(k + 1).drop_last() =~= edits.take(k));
        lemma_modify_part_err_stays(engine, target, edits, k + 1);
    } else {
        assert(edits.take(k) =~= edits);
    }
}

/// Each name in `names`, quoted for `engine`.
pub open spec fn quoted_all(names: Seq<Seq<char>>, engine: Engine) -> Seq<Seq<char>> {
    names.map_values(|n: Seq<char>| db::quoted(n, engine))
}

/// `names`, quoted for `engine` and separated by commas.
pub open spec fn list_spec(names: Seq<Seq<char>>, engine: Engine) -> Seq<char> {
    text::join(quoted_all(names, engine), ", "@)
}

/// `names`, quoted for `engine` and separated by commas.
pub fn quoted_list(names: &Vec<String>, engine: Engine) -> (r: String)
    ensures
        r@ == list_spec(text::views(names@), engine),
{
    let mut quoted: Vec<String> = Vec::new();
    let mut i: usize = 0;
    while i < names.len()
        invariant
            i <= names.len(),
            text::views(quoted@) == quoted_all(text::views(names@), engine).take(i as int),
        decreases names.len() - i,
    {
        push_statement(&mut quoted, quote_identifier(names[i].as_str(), engine));
        i = i + 1;
        assert(text::views(quoted@) =~= quoted_all(text::views(names@), engine).take(i as int));
    }
    assert(quoted_all(text::views(names@), engine).take(names.len() as int) =~= quoted_all(
        text::views(names@),
        engine,
    ));
    join_strings(&quoted, ", ")
}

/// A name in `object`'s schema, when it has one.
pub open spec fn in_schema(object: DatabaseObject, name: Seq<char>, engine: Engine) -> Seq<char> {
    match object.schema {
        Some(schema) => db::quoted(schema@, engine) + "."@ + db::quoted(name, engine),
        None => db::quoted(name, engine),
    }
}

fn in_schema_string(object: &DatabaseObject, name: &str, engine: Engine) -> (r: String)
    ensures
        r@ == in_schema(*object, name@, engine),
{
    match &object.schema {
        Some(schema) => {
            let mut r = quote_identifier(schema.as_str(), engine);
            r.append(".");
            r.append(quote_identifier(name, engine).as_str());
            r
        },
        None => quote_identifier(name, engine),
    }
}

/// The original name of an existing index.
pub open spec fn index_original_name(edit: IndexEdit) -> Seq<char> {
    match edit.original {
        Some(o) => o.name@,
        None => Seq::empty(),
    }
}

/// What dropping an index or key asks of SQLite that its own `ALTER TABLE`
/// cannot do.
pub open spec fn sqlite_key_refusal() -> Seq<char> {
    "changing a primary key is not supported on SQLite without rebuilding the table"@
}

/// The statement that drops the existing index `edit`.
pub open spec fn index_drop_spec(
    engine: Engine,
    object: DatabaseObject,
    target: Seq<char>,
    edit: IndexEdit,
) -> Result<Seq<char>, Seq<char>> {
    let name = index_original_name(edit);
    let primary = match edit.original {
        Some(o) => o.is_primary_key,
        None => false,
    };
    if primary {
        match engine {
            Engine::Postgres => Ok(alter(target, " DROP CONSTRAINT "@ + db::quoted(name, engine))),
            Engine::MySql => Ok(alter(target, " DROP PRIMARY KEY"@)),
            Engine::Sqlite => Err(sqlite_key_refusal()),
        }
    } else {
        match engine {
            Engine::Postgres => Ok("DROP INDEX "@ + in_schema(object, name, engine)),
            Engine::MySql => Ok("DROP INDEX "@ + db::quoted(name, engine) + " ON "@ + target),
            Engine::Sqlite => Ok("DROP INDEX "@ + db::quoted(name, engine)),
        }
    }
}

/// Whether `edit` is an index added by hand that is there to create.
pub open spec fn index_adds(edit: IndexEdit) -> bool {
    edit.new_spec() && !edit.dropped && edit.columns@.len() > 0
}

/// What an index added by hand without a name is told.
pub open spec fn index_needs_a_name() -> Seq<char> {
    "an index needs a name"@
}

/// The statement that creates the index (or primary key) added as `edit`.
pub open spec fn index_add_spec(engine: Engine, target: Seq<char>, edit: IndexEdit) -> Result<
    Seq<char>,
    Seq<char>,
> {
    let columns = list_spec(text::views(edit.columns@), engine);
    if edit.primary_key {
        if engine == Engine::Sqlite {
            Err(sqlite_key_refusal())
        } else {
            Ok(alter(target, " ADD PRIMARY KEY ("@ + columns + ")"@))
        }
    } else if text::blank(edit.name@) {
        Err(index_needs_a_name())
    } else {
        Ok(
            "CREATE "@ + (if edit.unique {
                "UNIQUE "@
            } else {
                Seq::empty()
            }) + "INDEX "@ + db::quoted(edit.name@, engine) + " ON "@ + target + " ("@ + columns
                + ")"@,
        )
    }
}

/// The statements `indexes` call for, in order: every drop, then every
/// creation; the first refusal when there is one.
pub open spec fn index_part(
    engine: Engine,
    object: DatabaseObject,
    target: Seq<char>,
    indexes: Seq<IndexEdit>,
    drops: bool,
) -> Result<Seq<Seq<char>>, Seq<char>>
    decreases indexes.len(),
{
    if indexes.len() == 0 {
        Ok(Seq::empty())
    } else {
        match index_part(engine, object, target, indexes.drop_last(), drops) {
            Err(e) => Err(e),
            Ok(before) => {
                let edit = indexes.last();
                if drops && edit.dropped && edit.original is Some {
                    match index_drop_spec(engine, object, target, edit) {
                        Ok(s) => Ok(before.push(s)),
                        Err(e) => Err(e),
                    }
                } else if !drops && index_adds(edit) {
                    match index_add_spec(engine, target, edit) {
                        Ok(s) => Ok(before.push(s)),
                        Err(e) => Err(e),
                    }
                } else {
                    Ok(before)
                }
            },
        }
    }
}

/// Every statement the index rows call for: the drops, then the creations.
pub open spec fn index_statements_spec(
    engine: Engine,
    object: DatabaseObject,
    indexes: Seq<IndexEdit>,
) -> Result<Seq<Seq<char>>, Seq<char>> {
    let target = target_spec(object, engine);
    match index_part(engine, object, target, indexes, true) {
        Err(e) => Err(e),
        Ok(d) => match index_part(engine, object, target, indexes, false) {
            Err(e) => Err(e),
            Ok(a) => Ok(d + a),
        },
    }
}

/// Once a prefix of the rows is refused, every longer prefix is refused the
/// same way.
proof fn lemma_index_part_err_stays(
    engine: Engine,
    object: DatabaseObject,
    target: Seq<char>,
    indexes: Seq<IndexEdit>,
    drops: bool,
    k: int,
)
    requires
        0 <= k <= indexes.len(),
        index_part(engine, object, target, indexes.take(k), drops) is Err,
    ensures
        index_part(engine, object, target, indexes, drops) == index_part(
            engine,
            object,
            target,
            indexes.take(k),
            drops,
        ),
    decreases indexes.len() - k,
{
    if k < indexes.len() {
        assert(indexes.take(k + 1).drop_last() =~= indexes.take(k));
        lemma_index_part_err_stays(engine, object, target, indexes, drops, k + 1);
    } else {
        assert(indexes.take(k) =~= indexes);
    }
}

fn index_pass(
    engine: Engine,
    object: &DatabaseObject,
    target: &str,
    indexes: &Vec<IndexEdit>,
    drops: bool,
) -> (r: Result<Vec<String>, String>)
    ensures
        outcome_is(r, index_part(engine, *object, target@, indexes@, drops)),
{
    let mut statements: Vec<String> = Vec::new();
    let mut i: usize = 0;
    assert(indexes@.take(0) =~= Seq::<IndexEdit>::empty());
    assert(text::views(statements@) =~= Seq::<Seq<char>>::empty());
    while i < indexes.len()
        invariant
            i <= indexes.len(),
            index_part(engine, *object, target@, indexes@.take(i as int), drops) == Ok::<
                Seq<Seq<char>>,
                Seq<char>,
            >(text::views(statements@)),
        decreases indexes.len() - i,
    {
        let edit = &indexes[i];
        assert(indexes@.take(i + 1).drop_last() =~= indexes@.take(i as int));
        assert(indexes@.take(i + 1).last() == indexes@[i as int]);
        if drops && edit.dropped && edit.original.is_some() {
            let (name, primary) = match &edit.original {
                Some(o) => (o.name.as_str(), o.is_primary_key),
                None => ("", false),
            };
            if primary {
                match engine {
                    Engine::Postgres => {
                        let mut rest = String::from_str(" DROP CONSTRAINT ");
                        rest.append(quote_identifier(name, engine).as_str());
                        push_statement(&mut statements, alter_string(target, rest.as_str()));
                    },
                    Engine::MySql => {
                        push_statement(&mut statements, alter_string(target, " DROP PRIMARY KEY"));
                    },
                    Engine::Sqlite => {
                        proof {
                            lemma_index_part_err_stays(
                                engine,
                                *object,
                                target@,
                                indexes@,
                                drops,
                                i + 1,
                            );
                        }
                        return Err(
                            String::from_str(
                                "changing a primary key is not supported on SQLite without rebuilding the table",
                            ),
                        );
                    },
                }
            } else {
                let mut s = String::from_str("DROP INDEX ");
                match engine {
                    Engine::Postgres => {
                        s.append(in_schema_string(object, name, engine).as_str());
                    },
                    Engine::MySql => {
                        s.append(quote_identifier(name, engine).as_str());
                        s.append(" ON ");
                        s.append(target);
                    },
                    Engine::Sqlite => {
                        s.append(quote_identifier(name, engine).as_str());
                    },
                }
                push_statement(&mut statements, s);
            }
        } else if !drops && edit.is_new() && !edit.dropped && edit.columns.len() > 0 {
            let columns = quoted_list(&edit.columns, engine);
            if edit.primary_key {
                if engine == Engine::Sqlite {
                    proof {
                        lemma_index_part_err_stays(engine, *object, target@, indexes@, drops, i + 1);
                    }
                    return Err(
                        String::from_str(
                            "changing a primary key is not supported on SQLite without rebuilding the table",
                        ),
                    );
                }
                let mut rest = String::from_str(" ADD PRIMARY KEY (");
                rest.append(columns.as_str());
                rest.append(")");
                push_statement(&mut statements, alter_string(target, rest.as_str()));
            } else if is_blank(edit.name.as_str()) {
                proof {
                    lemma_index_part_err_stays(engine, *object, target@, indexes@, drops, i + 1);
                }
                return Err(String::from_str("an index needs a name"));
            } else {
                let mut s = String::from_str("CREATE ");
                if edit.unique {
                    s.append("UNIQUE ");
                }
                s.append("INDEX ");
                s.append(quote_identifier(edit.name.as_str(), engine).as_str());
                s.append(" ON ");
                s.append(target);
                s.append(" (");
                s.append(columns.as_str());
                s.append(")");
                push_statement(&mut statements, s);
            }
        }
        i = i + 1;
    }
    assert(indexes@.take(indexes.len() as int) =~= indexes@);
    Ok(statements)
}

/// Every statement the index rows call for on `engine`: the drops first (so
/// a replaced primary key is gone before its successor is added), then the
/// creations.
///
/// `Err` for an index added without a name, or a primary key change SQLite's
/// own `ALTER TABLE` cannot make.
pub fn generate_index_statements(
    engine: Engine,
    object: &DatabaseObject,
    indexes: &Vec<IndexEdit>,
) -> (r: Result<Vec<String>, String>)
    ensures
        outcome_is(r, index_statements_spec(engine, *object, indexes@)),
{
    let target = target(object, engine);
    let mut statements = match index_pass(engine, object, target.as_str(), indexes, true) {
        Ok(s) => s,
        Err(e) => {
            return Err(e);
        },
    };
    match index_pass(engine, object, target.as_str(), indexes, false) {
        Ok(more) => {
            extend_statements(&mut statements, more);
            Ok(statements)
        },
        Err(e) => Err(e),
    }
}

/// The original name of an existing foreign key.
pub open spec fn key_original_name(edit: ForeignKeyEdit) -> Seq<char> {
    match edit.original {
        Some(o) => o.name@,
        None => Seq::empty(),
    }
}

/// The table a foreign key points at, qualified when it names a schema.
pub open spec fn referenced_spec(edit: ForeignKeyEdit, engine: Engine) -> Seq<char> {
    match edit.referenced_schema {
        Some(schema) => db::quoted(schema@, engine) + "."@ + db::quoted(
            edit.referenced_table@,
            engine,
        ),
        None => db::quoted(edit.referenced_table@, engine),
    }
}

/// `[CONSTRAINT name] FOREIGN KEY (..) REFERENCES table (..) ON DELETE ..
/// ON UPDATE ..` for a new foreign key.
pub open spec fn key_constraint_spec(engine: Engine, edit: ForeignKeyEdit) -> Seq<char> {
    (if !text::blank(edit.name@) {
        "CONSTRAINT "@ + db::quoted(edit.name@, engine) + " "@
    } else {
        Seq::empty()
    }) + "FOREIGN KEY ("@ + list_spec(text::views(edit.columns@), engine) + ") REFERENCES "@
        + referenced_spec(edit, engine) + " ("@ + list_spec(
        text::views(edit.referenced_columns@),
        engine,
    ) + ") ON DELETE "@ + db::action_label(edit.on_delete) + " ON UPDATE "@ + db::action_label(
        edit.on_update,
    )
}

/// What a foreign key change SQLite's own `ALTER TABLE` cannot make is told.
pub open spec fn sqlite_key_change_refusal() -> Seq<char> {
    "changing a foreign key is not supported on SQLite without rebuilding the table"@
}

/// The statement a foreign key row asks for, when it asks for one.
pub open spec fn key_statement_spec(engine: Engine, target: Seq<char>, edit: ForeignKeyEdit) -> Result<
    Seq<char>,
    Seq<char>,
> {
    if engine == Engine::Sqlite {
        Err(sqlite_key_change_refusal())
    } else if edit.dropped {
        if engine == Engine::MySql {
            Ok(alter(target, " DROP FOREIGN KEY "@ + db::quoted(key_original_name(edit), engine)))
        } else {
            Ok(alter(target, " DROP CONSTRAINT "@ + db::quoted(key_original_name(edit), engine)))
        }
    } else {
        Ok(alter(target, " ADD "@ + key_constraint_spec(engine, edit)))
    }
}

/// The statements the foreign key rows call for, in order.
pub open spec fn key_part(engine: Engine, target: Seq<char>, keys: Seq<ForeignKeyEdit>) -> Result<
    Seq<Seq<char>>,
    Seq<char>,
>
    decreases keys.len(),
{
    if keys.len() == 0 {
        Ok(Seq::empty())
    } else {
        match key_part(engine, target, keys.drop_last()) {
            Err(e) => Err(e),
            Ok(before) => if keys.last().wants_spec() {
                match key_statement_spec(engine, target, keys.last()) {
                    Ok(s) => Ok(before.push(s)),
                    Err(e) => Err(e),
                }
            } else {
                Ok(before)
            },
        }
    }
}

/// Every statement the foreign key rows call for on `engine`.
pub open spec fn key_statements_spec(
    engine: Engine,
    object: DatabaseObject,
    keys: Seq<ForeignKeyEdit>,
) -> Result<Seq<Seq<char>>, Seq<char>> {
    key_part(engine, target_spec(object, engine), keys)
}

proof fn lemma_key_part_err_stays(
    engine: Engine,
    target: Seq<char>,
    keys: Seq<ForeignKeyEdit>,
    k: int,
)
    requires
        0 <= k <= keys.len(),
        key_part(engine, target, keys.take(k)) is Err,
    ensures
        key_part(engine, target, keys) == key_part(engine, target, keys.take(k)),
    decreases keys.len() - k,
{
    if k < keys.len() {
        assert(keys.take(k + 1).drop_last() =~= keys.take(k));
        lemma_key_part_err_stays(engine, target, keys, k + 1);
    } else {
        assert(keys.take(k) =~= keys);
    }
}

/// The table a new foreign key references, schema-qualified when a schema
/// is named.
fn referenced(engine: Engine, edit: &ForeignKeyEdit) -> (r: String)
    ensures
        r@ == referenced_spec(*edit, engine),
{
    match &edit.referenced_schema {
        Some(schema) => {
            let mut s = quote_identifier(schema.as_str(), engine);
            s.append(".");
            s.append(quote_identifier(edit.referenced_table.as_str(), engine).as_str());
            s
        },
        None => quote_identifier(edit.referenced_table.as_str(), engine),
    }
}

/// The constraint clause of a new foreign key.
fn key_constraint(engine: Engine, edit: &ForeignKeyEdit) -> (r: String)
    ensures
        r@ == key_constraint_spec(engine, *edit),
{
    let mut s = String::new();
    if !is_blank(edit.name.as_str()) {
        s.append("CONSTRAINT ");
        s.append(quote_identifier(edit.name.as_str(), engine).as_str());
        s.append(" ");
    }
    let ghost head = s@;
    let columns = quoted_list(&edit.columns, engine);
    let table = referenced(engine, edit);
    let referenced_columns = quoted_list(&edit.referenced_columns, engine);
    s.append("FOREIGN KEY (");
    s.append(columns.as_str());
    s.append(") REFERENCES ");
    s.append(table.as_str());
    s.append(" (");
    s.append(referenced_columns.as_str());
    s.append(") ON DELETE ");
    s.append(edit.on_delete.label());
    s.append(" ON UPDATE ");
    s.append(edit.on_update.label());
    assert(s@ == head + "FOREIGN KEY ("@ + columns@ + ") REFERENCES "@ + table@ + " ("@
        + referenced_columns@ + ") ON DELETE "@ + db::action_label(edit.on_delete)
        + " ON UPDATE "@ + db::action_label(edit.on_update));
    s
}

/// Every statement the foreign key rows call for on `engine`: a drop for
/// each existing key marked for it, an `ADD` for each complete new one, in
/// row order.
///
/// `Err` on SQLite for any such row, since its own `ALTER TABLE` cannot add
/// or drop a foreign key.
pub fn generate_foreign_key_statements(
    engine: Engine,
    object: &DatabaseObject,
    keys: &Vec<ForeignKeyEdit>,
) -> (r: Result<Vec<String>, String>)
    ensures
        outcome_is(r, key_statements_spec(engine, *object, keys@)),
{
    let target = target(object, engine);
    let mut statements: Vec<String> = Vec::new();
    let mut i: usize = 0;
    assert(keys@.take(0) =~= Seq::<ForeignKeyEdit>::empty());
    assert(text::views(statements@) =~= Seq::<Seq<char>>::empty());
    while i < keys.len()
        invariant
            i <= keys.len(),
            target@ == target_spec(*object, engine),
            key_part(engine, target@, keys@.take(i as int)) == Ok::<Seq<Seq<char>>, Seq<char>>(
                text::views(statements@),
            ),
        decreases keys.len() - i,
    {
        let edit = &keys[i];
        assert(keys@.take(i + 1).drop_last() =~= keys@.take(i as int));
        assert(keys@.take(i + 1).last() == keys@[i as int]);
        if edit.wants_a_statement() {
            if engine == Engine::Sqlite {
                proof {
                    lemma_key_part_err_stays(engine, target@, keys@, i + 1);
                }
                return Err(
                    String::from_str(
                        "changing a foreign key is not supported on SQLite without rebuilding the table",
                    ),
                );
            }
            if edit.dropped {
                let original_quoted = match &edit.original {
                    Some(o) => quote_identifier(o.name.as_str(), engine),
                    None => String::new(),
                };
                let mut rest = if engine == Engine::MySql {
                    String::from_str(" DROP FOREIGN KEY ")
                } else {
                    String::from_str(" DROP CONSTRAINT ")
                };
                rest.append(original_quoted.as_str());
                push_statement(&mut statements, alter_string(target.as_str(), rest.as_str()));
            } else {
                let mut rest = String::from_str(" ADD ");
                rest.append(key_constraint(engine, edit).as_str());
                push_statement(&mut statements, alter_string(target.as_str(), rest.as_str()));
            }
        }
        i = i + 1;
    }
    assert(keys@.take(keys.len() as int) =~= keys@);
    Ok(statements)
}

/// A column row that asks for nothing: an existing column kept as it was, a
/// dropped row that was never on the server, or a blank row added by hand.
pub open spec fn column_idle(edit: ColumnEdit) -> bool {
    !edit.changed_spec() && !adds(edit) && !(edit.dropped && edit.original is Some)
}

/// An index row that asks for nothing: neither an existing index dropped nor
/// a new one with columns to create.
pub open spec fn index_idle(edit: IndexEdit) -> bool {
    !(edit.dropped && edit.original is Some) && !index_adds(edit)
}

proof fn lemma_idle_columns_parts(engine: Engine, target: Seq<char>, edits: Seq<ColumnEdit>)
    requires
        forall|k: int| 0 <= k < edits.len() ==> column_idle(#[trigger] edits[k]),
    ensures
        modify_part(engine, target, edits) == Ok::<Seq<Seq<char>>, Seq<char>>(Seq::empty()),
        add_part(engine, target, edits) == Seq::<Seq<char>>::empty(),
        drop_part(engine, target, edits) == Seq::<Seq<char>>::empty(),
    decreases edits.len(),
{
    if edits.len() > 0 {
        assert(column_idle(edits[edits.len() - 1]));
        lemma_idle_columns_parts(engine, target, edits.drop_last());
    }
}

/// A form whose column rows ask for nothing generates no statement, on any
/// engine: no refusal and an empty list.
pub proof fn idle_columns_generate_nothing(engine: Engine, target: Seq<char>, edits: Seq<ColumnEdit>)
    requires
        forall|k: int| 0 <= k < edits.len() ==> column_idle(#[trigger] edits[k]),
    ensures
        alter_statements_spec(engine, target, edits) == Ok::<Seq<Seq<char>>, Seq<char>>(
            Seq::empty(),
        ),
{
    lemma_idle_columns_parts(engine, target, edits);
    assert(Seq::<Seq<char>>::empty() + Seq::<Seq<char>>::empty() + Seq::<Seq<char>>::empty()
        =~= Seq::<Seq<char>>::empty());
}

proof fn lemma_idle_index_part(
    engine: Engine,
    object: DatabaseObject,
    target: Seq<char>,
    indexes: Seq<IndexEdit>,
    drops: bool,
)
    requires
        forall|k: int| 0 <= k < indexes.len() ==> index_idle(#[trigger] indexes[k]),
    ensures
        index_part(engine, object, target, indexes, drops) == Ok::<Seq<Seq<char>>, Seq<char>>(
            Seq::empty(),
        ),
    decreases indexes.len(),
{
    if indexes.len() > 0 {
        assert(index_idle(indexes[indexes.len() - 1]));
        lemma_idle_index_part(engine, object, target, indexes.drop_last(), drops);
    }
}

/// Index rows that ask for nothing generate no statement, on any engine.
pub proof fn idle_indexes_generate_nothing(
    engine: Engine,
    object: DatabaseObject,
    indexes: Seq<IndexEdit>,
)
    requires
        forall|k: int| 0 <= k < indexes.len() ==> index_idle(#[trigger] indexes[k]),
    ensures
        index_statements_spec(engine, object, indexes) == Ok::<Seq<Seq<char>>, Seq<char>>(
            Seq::empty(),
        ),
{
    let target = target_spec(object, engine);
    lemma_idle_index_part(engine, object, target, indexes, true);
    lemma_idle_index_part(engine, object, target, indexes, false);
    assert(Seq::<Seq<char>>::empty() + Seq::<Seq<char>>::empty() =~= Seq::<Seq<char>>::empty());
}

/// Foreign key rows none of which asks for a statement (no existing key
/// dropped, no new one complete) generate none, on any engine.
pub proof fn idle_keys_generate_nothing(
    engine: Engine,
    object: DatabaseObject,
    keys: Seq<ForeignKeyEdit>,
)
    requires
        forall|k: int| 0 <= k < keys.len() ==> !(#[trigger] keys[k]).wants_spec(),
    ensures
        key_statements_spec(engine, object, keys) == Ok::<Seq<Seq<char>>, Seq<char>>(
            Seq::empty(),
        ),
    decreases keys.len(),
{
    if keys.len() > 0 {
        assert(!keys[keys.len() - 1].wants_spec());
        idle_keys_generate_nothing(engine, object, keys.drop_last());
    }
}

/// On PostgreSQL, a kept column whose only change is its nullability gets
/// exactly one statement, and it goes the way the edit does: making the
/// column nullable drops `NOT NULL`, making it required sets `NOT NULL`.
pub proof fn postgres_nullability_follows_the_edit(target: Seq<char>, edit: ColumnEdit)
    requires
        edit.original matches Some(o) && o.name@ == edit.name@ && o.data_type@ == edit.data_type@
            && text::opt_view(o.default) == text::opt_view(edit.default) && o.nullable
            != edit.nullable,
        !edit.dropped,
        !text::blank(edit.name@),
    ensures
        alter_statements_spec(Engine::Postgres, target, seq![edit]) == Ok::<
            Seq<Seq<char>>,
            Seq<char>,
        >(
            seq![
                "ALTER TABLE "@ + target + " ALTER COLUMN "@ + db::quoted(edit.name@, Engine::Postgres)
                    + " "@ + (if edit.nullable {
                    "DROP "@
                } else {
                    "SET "@
                }) + "NOT NULL"@,
            ],
        ),
{
    let edits = seq![edit];
    assert(edits.drop_last() =~= Seq::<ColumnEdit>::empty());
    assert(edits.last() == edit);
    assert(modify_part(Engine::Postgres, target, Seq::<ColumnEdit>::empty()) == Ok::<
        Seq<Seq<char>>,
        Seq<char>,
    >(Seq::empty()));
    assert(add_part(Engine::Postgres, target, Seq::<ColumnEdit>::empty()) =~= Seq::<Seq<char>>::empty());
    assert(drop_part(Engine::Postgres, target, Seq::<ColumnEdit>::empty()) =~= Seq::<Seq<char>>::empty());
    let s = "ALTER TABLE "@ + target + " ALTER COLUMN "@ + db::quoted(edit.name@, Engine::Postgres)
        + " "@ + (if edit.nullable {
        "DROP "@
    } else {
        "SET "@
    }) + "NOT NULL"@;
    reveal_strlit("DROP NOT NULL");
    reveal_strlit("SET NOT NULL");
    reveal_strlit("DROP ");
    reveal_strlit("SET ");
    reveal_strlit("NOT NULL");
    assert(!edit.renamed_spec());
    assert(!edit.retyped_spec());
    assert(edit.nullability_changed_spec());
    assert(!edit.default_changed_spec());
    let current = db::quoted(edit.name@, Engine::Postgres);
    assert("DROP "@ + "NOT NULL"@ =~= "DROP NOT NULL"@);
    assert("SET "@ + "NOT NULL"@ =~= "SET NOT NULL"@);
    let x = if edit.nullable {
        "DROP NOT NULL"@
    } else {
        "SET NOT NULL"@
    };
    assert(alter(target, " ALTER COLUMN "@ + current + " "@ + x) =~= s);
    assert(postgres_modify_spec(target, edit) =~= seq![s]);
    assert(Seq::<Seq<char>>::empty() + seq![s] =~= seq![s]);
    assert(seq![s] + Seq::<Seq<char>>::empty() + Seq::<Seq<char>>::empty() =~= seq![s]);
}

} // verus!
