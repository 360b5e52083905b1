//! The SQLite table rebuild the schema editor falls back to.
//!
//! SQLite's own `ALTER TABLE` only reaches a rename and an add or drop of a
//! plain column. A column's type, nullability, or default, or a primary or
//! foreign key, need sqlite.org's "Making Other Kinds Of Table Schema
//! Changes": copy the table into a new one with the edited definition, drop
//! the old one, rename the new one into its place, and put its indexes,
//! triggers, and views back. [`plan`] generates that body; the caller runs it
//! as one transaction with foreign keys off around it.

use vstd::prelude::*;
use crate::db::{DatabaseObject, Engine, RebuildSource, StoredDefinition, quote_identifier};
use crate::db;
use crate::sql::{
    ColumnEdit, ForeignKeyEdit, IndexEdit, column_clause, generate_alter_statements,
    generate_foreign_key_statements, generate_index_statements, quoted_list, target,
};
use crate::sql;
use crate::sqltext::{mentions, rewrite_identifiers, upper_words};
use crate::sqltext;
use crate::text;
use crate::text::{chars_eq, chars_eq_ignore_case, chars_of, copy_string, copy_strings, is_blank, join_strings};

verus! {

/// What the schema editor has staged to run.
#[derive(Debug, Clone, PartialEq, Eq)]
pub enum Change {
    /// Statements that run one at a time.
    Statements(Vec<String>),
    /// One SQLite table rebuild, run atomically on a dedicated connection.
    Rebuild(Vec<String>),
}

/// A change as the specification sees it: whether it is a rebuild, and its
/// statements.
pub type SpecChange = (bool, Seq<Seq<char>>);

impl Change {
    pub open spec fn spec(&self) -> SpecChange {
        match self {
            Change::Statements(s) => (false, text::views(s@)),
            Change::Rebuild(s) => (true, text::views(s@)),
        }
    }

    /// The statements, in the order they run.
    pub fn statements(&self) -> (r: &Vec<String>)
        ensures
            text::views(r@) == self.spec().1,
    {
        match self {
            Change::Statements(statements) => statements,
            Change::Rebuild(statements) => statements,
        }
    }

    /// Whether there is nothing to run.
    pub fn is_empty(&self) -> (r: bool)
        ensures
            r == (self.spec().1.len() == 0),
    {
        self.statements().len() == 0
    }

    /// Whether this is a table rebuild.
    pub fn is_rebuild(&self) -> (r: bool)
        ensures
            r == self.spec().0,
    {
        match self {
            Change::Rebuild(_) => true,
            Change::Statements(_) => false,
        }
    }
}

/// Whether a planned change or refusal is the one `expected` describes.
pub open spec fn change_is(r: Result<Change, String>, expected: Result<SpecChange, Seq<char>>) -> bool {
    match (r, expected) {
        (Ok(c), Ok(s)) => c.spec() == s,
        (Err(e), Err(m)) => e@ == m,
        _ => false,
    }
}

/// Whether an outcome with nothing to return is the one `refusal` describes:
/// `Ok` exactly when there is no refusal.
pub open spec fn check_is(r: Result<(), String>, refusal: Option<Seq<char>>) -> bool {
    match (r, refusal) {
        (Ok(_), None) => true,
        (Err(e), Some(m)) => e@ == m,
        _ => false,
    }
}

// ---------------------------------------------------------------------------
// Renames

/// Every column the form has renamed, old name to new, in form order.
pub open spec fn rename_map_spec(columns: Seq<ColumnEdit>) -> Seq<(Seq<char>, Seq<char>)>
    decreases columns.len(),
{
    if columns.len() == 0 {
        Seq::empty()
    } else {
        let edit = columns.last();
        let before = rename_map_spec(columns.drop_last());
        match edit.original {
            Some(o) => if !edit.dropped && o.name@ != edit.name@ {
                before.push((o.name@, edit.name@))
            } else {
                before
            },
            None => before,
        }
    }
}

/// Every column the form has renamed, old name to new.
pub fn rename_map(columns: &Vec<ColumnEdit>) -> (r: Vec<(String, String)>)
    ensures
        sqltext::rename_views(r@) == rename_map_spec(columns@),
{
    let mut out: Vec<(String, String)> = Vec::new();
    let mut i: usize = 0;
    assert(columns@.take(0) =~= Seq::<ColumnEdit>::empty());
    assert(sqltext::rename_views(out@) =~= Seq::<(Seq<char>, Seq<char>)>::empty());
    while i < columns.len()
        invariant
            i <= columns.len(),
            sqltext::rename_views(out@) == rename_map_spec(columns@.take(i as int)),
        decreases columns.len() - i,
    {
        let edit = &columns[i];
        assert(columns@.take(i + 1).drop_last() =~= columns@.take(i as int));
        assert(columns@.take(i + 1).last() == columns@[i as int]);
        if let Some(original) = &edit.original {
            if !edit.dropped && original.name != edit.name {
                let ghost before = sqltext::rename_views(out@);
                out.push((copy_string(&original.name), copy_string(&edit.name)));
                assert(sqltext::rename_views(out@) =~= before.push(
                    (original.name@, edit.name@),
                ));
            }
        }
        i = i + 1;
    }
    assert(columns@.take(columns.len() as int) =~= columns@);
    out
}

/// `column` under its new name, when the form renamed it.
pub open spec fn renamed_spec(column: Seq<char>, renames: Seq<(Seq<char>, Seq<char>)>) -> Seq<
    char,
> {
    match sqltext::find_rename(renames, column) {
        Some(new) => new,
        None => column,
    }
}

/// Each of `columns` under its new name.
pub open spec fn renamed_all(
    columns: Seq<Seq<char>>,
    renames: Seq<(Seq<char>, Seq<char>)>,
) -> Seq<Seq<char>> {
    columns.map_values(|c: Seq<char>| renamed_spec(c, renames))
}

/// `column` under its new name, when the form renamed it.
pub fn renamed(column: &str, renames: &Vec<(String, String)>) -> (r: String)
    ensures
        r@ == renamed_spec(column@, sqltext::rename_views(renames@)),
{
    let v = chars_of(column);
    match sqltext::lookup_rename(renames, &v) {
        Some(new) => text::string_of(&new),
        None => String::from_str(column),
    }
}

/// Each of `columns` under its new name.
pub fn renamed_columns(columns: &Vec<String>, renames: &Vec<(String, String)>) -> (r: Vec<String>)
    ensures
        text::views(r@) == renamed_all(text::views(columns@), sqltext::rename_views(renames@)),
{
    let mut out: Vec<String> = Vec::new();
    let mut i: usize = 0;
    while i < columns.len()
        invariant
            i <= columns.len(),
            out@.len() == i,
            forall|k: int|
                0 <= k < i ==> (#[trigger] out@[k])@ == renamed_spec(
                    columns@[k]@,
                    sqltext::rename_views(renames@),
                ),
        decreases columns.len() - i,
    {
        out.push(renamed(columns[i].as_str(), renames));
        i = i + 1;
    }
    assert(text::views(out@) =~= renamed_all(text::views(columns@), sqltext::rename_views(renames@)));
    out
}

/// `columns`, quoted for SQLite and separated by commas.
pub fn columns_list(columns: &Vec<String>) -> (r: String)
    ensures
        r@ == sql::list_spec(text::views(columns@), Engine::Sqlite),
{
    quoted_list(columns, Engine::Sqlite)
}

// ---------------------------------------------------------------------------
// Columns

/// Whether any of `columns` is one of `dropped`, in any ASCII case.
pub open spec fn uses_dropped(columns: Seq<Seq<char>>, dropped: Seq<Seq<char>>) -> bool {
    exists|i: int, j: int|
        0 <= i < columns.len() && 0 <= j < dropped.len() && text::eq_ignore_case(
            #[trigger] dropped[j],
            #[trigger] columns[i],
        )
}

/// Whether any of `columns` is one of `dropped`.
pub fn uses_dropped_columns(columns: &Vec<String>, dropped: &Vec<String>) -> (r: bool)
    ensures
        r == uses_dropped(text::views(columns@), text::views(dropped@)),
{
    let ghost c = text::views(columns@);
    let ghost d = text::views(dropped@);
    let mut i: usize = 0;
    while i < columns.len()
        invariant
            i <= columns.len(),
            c == text::views(columns@),
            d == text::views(dropped@),
            forall|a: int, b: int|
                0 <= a < i && 0 <= b < d.len() ==> !text::eq_ignore_case(
                    #[trigger] d[b],
                    #[trigger] c[a],
                ),
        decreases columns.len() - i,
    {
        let column = chars_of(columns[i].as_str());
        let mut j: usize = 0;
        while j < dropped.len()
            invariant
                i < columns.len(),
                j <= dropped.len(),
                c == text::views(columns@),
                d == text::views(dropped@),
                column@ == c[i as int],
                forall|a: int, b: int|
                    0 <= a < i && 0 <= b < d.len() ==> !text::eq_ignore_case(
                        #[trigger] d[b],
                        #[trigger] c[a],
                    ),
                forall|b: int| 0 <= b < j ==> !text::eq_ignore_case(#[trigger] d[b], c[i as int]),
            decreases dropped.len() - j,
        {
            let name = chars_of(dropped[j].as_str());
            if chars_eq_ignore_case(&name, &column) {
                assert(text::eq_ignore_case(d[j as int], c[i as int]));
                return true;
            }
            j = j + 1;
        }
        i = i + 1;
    }
    false
}

/// The new table's column definitions, the columns the copy carries over
/// (new name, old name), and the names of the columns being dropped; or the
/// refusal of an existing column left without a name.
pub type ColumnPlan = (Seq<Seq<char>>, Seq<(Seq<char>, Seq<char>)>, Seq<Seq<char>>);

/// The columns of the new table, in form order. A dropped column is left
/// out; a column added by hand starts empty on the other side, so it is not
/// copied; a blank new row is skipped.
pub open spec fn column_plan(columns: Seq<ColumnEdit>) -> Result<ColumnPlan, Seq<char>>
    decreases columns.len(),
{
    if columns.len() == 0 {
        Ok((Seq::empty(), Seq::empty(), Seq::empty()))
    } else {
        match column_plan(columns.drop_last()) {
            Err(e) => Err(e),
            Ok((definitions, copied, dropped)) => {
                let edit = columns.last();
                if edit.dropped {
                    match edit.original {
                        Some(o) => Ok((definitions, copied, dropped.push(o.name@))),
                        None => Ok((definitions, copied, dropped)),
                    }
                } else if text::blank(edit.name@) {
                    if edit.new_spec() {
                        Ok((definitions, copied, dropped))
                    } else {
                        Err(sql::needs_a_name())
                    }
                } else {
                    let definitions = definitions.push(sql::clause_spec(Engine::Sqlite, edit));
                    match edit.original {
                        Some(o) => Ok((definitions, copied.push((edit.name@, o.name@)), dropped)),
                        None => Ok((definitions, copied, dropped)),
                    }
                }
            },
        }
    }
}

proof fn lemma_column_plan_err_stays(columns: Seq<ColumnEdit>, k: int)
    requires
        0 <= k <= columns.len(),
        column_plan(columns.take(k)) is Err,
    ensures
        column_plan(columns) == column_plan(columns.take(k)),
    decreases columns.len() - k,
{
    if k < columns.len() {
        assert(columns.take(k + 1).drop_last() =~= columns.take(k));
        lemma_column_plan_err_stays(columns, k + 1);
    } else {
        assert(columns.take(k) =~= columns);
    }
}

/// The columns of the new table: definitions, copied pairs, dropped names.
pub fn plan_columns(columns: &Vec<ColumnEdit>) -> (r: Result<
    (Vec<String>, Vec<(String, String)>, Vec<String>),
    String,
>)
    ensures
        match (r, column_plan(columns@)) {
            (Ok((d, c, x)), Ok((sd, sc, sx))) => text::views(d@) == sd && sqltext::rename_views(
                c@,
            ) == sc && text::views(x@) == sx,
            (Err(e), Err(m)) => e@ == m,
            _ => false,
        },
{
    let mut definitions: Vec<String> = Vec::new();
    let mut copied: Vec<(String, String)> = Vec::new();
    let mut dropped: Vec<String> = Vec::new();
    let mut i: usize = 0;
    assert(columns@.take(0) =~= Seq::<ColumnEdit>::empty());
    assert(text::views(definitions@) =~= Seq::<Seq<char>>::empty());
    assert(text::views(dropped@) =~= Seq::<Seq<char>>::empty());
    assert(sqltext::rename_views(copied@) =~= Seq::<(Seq<char>, Seq<char>)>::empty());
    while i < columns.len()
        invariant
            i <= columns.len(),
            column_plan(columns@.take(i as int)) == Ok::<ColumnPlan, Seq<char>>(
                (text::views(definitions@), sqltext::rename_views(copied@), text::views(dropped@)),
            ),
        decreases columns.len() - i,
    {
        let edit = &columns[i];
        assert(columns@.take(i + 1).drop_last() =~= columns@.take(i as int));
        assert(columns@.take(i + 1).last() == columns@[i as int]);
        let ghost d0 = text::views(definitions@);
        let ghost c0 = sqltext::rename_views(copied@);
        let ghost x0 = text::views(dropped@);
        if edit.dropped {
            if let Some(original) = &edit.original {
                dropped.push(copy_string(&original.name));
                assert(text::views(dropped@) =~= x0.push(original.name@));
            }
        } else if is_blank(edit.name.as_str()) {
            if !edit.is_new() {
                proof {
                    lemma_column_plan_err_stays(columns@, i + 1);
                }
                return Err(String::from_str("a column needs a name"));
            }
        } else {
            definitions.push(column_clause(Engine::Sqlite, edit));
            assert(text::views(definitions@) =~= d0.push(sql::clause_spec(Engine::Sqlite, *edit)));
            if let Some(original) = &edit.original {
                copied.push((copy_string(&edit.name), copy_string(&original.name)));
                assert(sqltext::rename_views(copied@) =~= c0.push((edit.name@, original.name@)));
            }
        }
        i = i + 1;
    }
    assert(columns@.take(columns.len() as int) =~= columns@);
    Ok((definitions, copied, dropped))
}

// ---------------------------------------------------------------------------
// The primary key

/// Whether `edit` adds a primary key of its own.
pub open spec fn adds_key(edit: IndexEdit) -> bool {
    edit.new_spec() && edit.primary_key && !edit.dropped && edit.columns@.len() > 0
}

/// Whether `edit` keeps the table's existing primary key.
pub open spec fn keeps_key(edit: IndexEdit) -> bool {
    !edit.dropped && !edit.new_spec() && match edit.original {
        Some(o) => o.is_primary_key,
        None => false,
    }
}

/// Whether `edit` drops the table's existing primary key.
pub open spec fn drops_key(edit: IndexEdit) -> bool {
    edit.dropped && match edit.original {
        Some(o) => o.is_primary_key,
        None => false,
    }
}

/// The first index row that adds a primary key, if any.
pub open spec fn first_added_key(indexes: Seq<IndexEdit>) -> Option<IndexEdit>
    decreases indexes.len(),
{
    if indexes.len() == 0 {
        None
    } else if adds_key(indexes[0]) {
        Some(indexes[0])
    } else {
        first_added_key(indexes.drop_first())
    }
}

/// The first index row that keeps the existing primary key, if any.
pub open spec fn first_kept_key(indexes: Seq<IndexEdit>) -> Option<IndexEdit>
    decreases indexes.len(),
{
    if indexes.len() == 0 {
        None
    } else if keeps_key(indexes[0]) {
        Some(indexes[0])
    } else {
        first_kept_key(indexes.drop_first())
    }
}

/// The key columns of the form's existing columns, when the key is a flag on
/// them rather than an index row: a rowid alias (`INTEGER PRIMARY KEY`).
pub open spec fn flagged_key(columns: Seq<ColumnEdit>) -> Seq<Seq<char>>
    decreases columns.len(),
{
    if columns.len() == 0 {
        Seq::empty()
    } else {
        let edit = columns.last();
        let before = flagged_key(columns.drop_last());
        match edit.original {
            Some(o) => if !edit.dropped && o.is_primary_key {
                before.push(edit.name@)
            } else {
                before
            },
            None => before,
        }
    }
}

/// The table's primary key columns, in key order, as the form now has them.
///
/// A key added by hand wins; then the existing key's own column order; a
/// dropped key leaves none; otherwise the columns flagged as the key.
pub open spec fn primary_key_spec(
    columns: Seq<ColumnEdit>,
    indexes: Seq<IndexEdit>,
    renames: Seq<(Seq<char>, Seq<char>)>,
) -> Seq<Seq<char>> {
    match first_added_key(indexes) {
        Some(added) => renamed_all(text::views(added.columns@), renames),
        None => match first_kept_key(indexes) {
            Some(existing) => match existing.original {
                Some(o) => renamed_all(text::views(o.columns@), renames),
                None => Seq::empty(),
            },
            None => if exists|k: int| 0 <= k < indexes.len() && drops_key(#[trigger] indexes[k]) {
                Seq::empty()
            } else {
                flagged_key(columns)
            },
        },
    }
}

fn find_added_key(indexes: &Vec<IndexEdit>) -> (r: Option<usize>)
    ensures
        match r {
            Some(k) => k < indexes.len() && first_added_key(indexes@) == Some(indexes@[k as int]),
            None => first_added_key(indexes@) is None,
        },
{
    let mut i: usize = 0;
    assert(indexes@.skip(0) =~= indexes@);
    while i < indexes.len()
        invariant
            i <= indexes.len(),
            first_added_key(indexes@) == first_added_key(indexes@.skip(i as int)),
        decreases indexes.len() - i,
    {
        let edit = &indexes[i];
        assert(indexes@.skip(i as int)[0] == indexes@[i as int]);
        if edit.is_new() && edit.primary_key && !edit.dropped && edit.columns.len() > 0 {
            return Some(i);
        }
        assert(indexes@.skip(i as int).drop_first() =~= indexes@.skip(i + 1));
        i = i + 1;
    }
    None
}

fn find_kept_key(indexes: &Vec<IndexEdit>) -> (r: Option<usize>)
    ensures
        match r {
            Some(k) => k < indexes.len() && first_kept_key(indexes@) == Some(indexes@[k as int]),
            None => first_kept_key(indexes@) is None,
        },
{
    let mut i: usize = 0;
    assert(indexes@.skip(0) =~= indexes@);
    while i < indexes.len()
        invariant
            i <= indexes.len(),
            first_kept_key(indexes@) == first_kept_key(indexes@.skip(i as int)),
        decreases indexes.len() - i,
    {
        let edit = &indexes[i];
        assert(indexes@.skip(i as int)[0] == indexes@[i as int]);
        let keeps = match &edit.original {
            Some(o) => !edit.dropped && o.is_primary_key,
            None => false,
        };
        if keeps {
            return Some(i);
        }
        assert(indexes@.skip(i as int).drop_first() =~= indexes@.skip(i + 1));
        i = i + 1;
    }
    None
}

/// The table's primary key columns, in key order, as the form now has them.
pub fn primary_key(
    columns: &Vec<ColumnEdit>,
    indexes: &Vec<IndexEdit>,
    renames: &Vec<(String, String)>,
) -> (r: Vec<String>)
    ensures
        text::views(r@) == primary_key_spec(columns@, indexes@, sqltext::rename_views(renames@)),
{
    if let Some(k) = find_added_key(indexes) {
        return renamed_columns(&indexes[k].columns, renames);
    }
    if let Some(k) = find_kept_key(indexes) {
        match &indexes[k].original {
            Some(o) => {
                return renamed_columns(&o.columns, renames);
            },
            None => {
                return Vec::new();
            },
        }
    }
    let mut i: usize = 0;
    while i < indexes.len()
        invariant
            i <= indexes.len(),
            first_added_key(indexes@) is None,
            first_kept_key(indexes@) is None,
            forall|k: int| 0 <= k < i ==> !drops_key(#[trigger] indexes@[k]),
        decreases indexes.len() - i,
    {
        let edit = &indexes[i];
        let drops = match &edit.original {
            Some(o) => edit.dropped && o.is_primary_key,
            None => false,
        };
        if drops {
            assert(drops_key(indexes@[i as int]));
            let r: Vec<String> = Vec::new();
            assert(text::views(r@) =~= Seq::<Seq<char>>::empty());
            return r;
        }
        i = i + 1;
    }
    let mut out: Vec<String> = Vec::new();
    let mut i: usize = 0;
    assert(columns@.take(0) =~= Seq::<ColumnEdit>::empty());
    assert(text::views(out@) =~= Seq::<Seq<char>>::empty());
    while i < columns.len()
        invariant
            i <= columns.len(),
            first_added_key(indexes@) is None,
            first_kept_key(indexes@) is None,
            forall|k: int| 0 <= k < indexes.len() ==> !drops_key(#[trigger] indexes@[k]),
            text::views(out@) == flagged_key(columns@.take(i as int)),
        decreases columns.len() - i,
    {
        let edit = &columns[i];
        assert(columns@.take(i + 1).drop_last() =~= columns@.take(i as int));
        assert(columns@.take(i + 1).last() == columns@[i as int]);
        if let Some(o) = &edit.original {
            if !edit.dropped && o.is_primary_key {
                let ghost before = text::views(out@);
                out.push(copy_string(&edit.name));
                assert(text::views(out@) =~= before.push(edit.name@));
            }
        }
        i = i + 1;
    }
    assert(columns@.take(columns.len() as int) =~= columns@);
    out
}

// ---------------------------------------------------------------------------
// Foreign keys

/// A foreign key as a table constraint in the rebuilt table, its local
/// columns under their new names.
pub open spec fn key_clause_spec(
    engine: Engine,
    edit: ForeignKeyEdit,
    renames: Seq<(Seq<char>, Seq<char>)>,
) -> Seq<char> {
    let local = renamed_all(text::views(edit.columns@), renames);
    (if !text::blank(edit.name@) {
        "CONSTRAINT "@ + db::quoted(edit.name@, engine) + " "@
    } else {
        Seq::empty()
    }) + "FOREIGN KEY ("@ + sql::list_spec(local, Engine::Sqlite) + ") REFERENCES "@ + db::quoted(
        edit.referenced_table@,
        engine,
    ) + " ("@ + sql::list_spec(text::views(edit.referenced_columns@), Engine::Sqlite) + ")"@
        + " ON DELETE "@ + db::action_label(edit.on_delete) + " ON UPDATE "@ + db::action_label(
        edit.on_update,
    )
}

/// A foreign key as a table constraint in the rebuilt table.
pub fn foreign_key_clause(
    engine: Engine,
    edit: &ForeignKeyEdit,
    renames: &Vec<(String, String)>,
) -> (r: String)
    ensures
        r@ == key_clause_spec(engine, *edit, sqltext::rename_views(renames@)),
{
    let local = renamed_columns(&edit.columns, renames);
    let referenced = quote_identifier(edit.referenced_table.as_str(), engine);
    let mut clause = String::new();
    if !is_blank(edit.name.as_str()) {
        clause.append("CONSTRAINT ");
        clause.append(quote_identifier(edit.name.as_str(), engine).as_str());
        clause.append(" ");
    }
    clause.append("FOREIGN KEY (");
    clause.append(columns_list(&local).as_str());
    clause.append(") REFERENCES ");
    clause.append(referenced.as_str());
    clause.append(" (");
    clause.append(columns_list(&edit.referenced_columns).as_str());
    clause.append(")");
    clause.append(" ON DELETE ");
    clause.append(edit.on_delete.label());
    clause.append(" ON UPDATE ");
    clause.append(edit.on_update.label());
    clause
}

/// Whether the rebuilt table keeps `edit` as a constraint.
pub open spec fn keeps_foreign_key(edit: ForeignKeyEdit, dropped: Seq<Seq<char>>) -> bool {
    !(edit.dropped || (edit.new_spec() && !edit.wants_spec()) || uses_dropped(
        text::views(edit.columns@),
        dropped,
    ))
}

/// The foreign keys the rebuilt table keeps, as table constraints.
pub open spec fn key_constraints_spec(
    keys: Seq<ForeignKeyEdit>,
    renames: Seq<(Seq<char>, Seq<char>)>,
    dropped: Seq<Seq<char>>,
) -> Seq<Seq<char>>
    decreases keys.len(),
{
    if keys.len() == 0 {
        Seq::empty()
    } else if keeps_foreign_key(keys.last(), dropped) {
        key_constraints_spec(keys.drop_last(), renames, dropped).push(
            key_clause_spec(Engine::Sqlite, keys.last(), renames),
        )
    } else {
        key_constraints_spec(keys.drop_last(), renames, dropped)
    }
}

fn key_constraints(
    keys: &Vec<ForeignKeyEdit>,
    renames: &Vec<(String, String)>,
    dropped: &Vec<String>,
) -> (r: Vec<String>)
    ensures
        text::views(r@) == key_constraints_spec(
            keys@,
            sqltext::rename_views(renames@),
            text::views(dropped@),
        ),
{
    let mut out: Vec<String> = Vec::new();
    let mut i: usize = 0;
    assert(keys@.take(0) =~= Seq::<ForeignKeyEdit>::empty());
    assert(text::views(out@) =~= Seq::<Seq<char>>::empty());
    while i < keys.len()
        invariant
            i <= keys.len(),
            text::views(out@) == key_constraints_spec(
                keys@.take(i as int),
                sqltext::rename_views(renames@),
                text::views(dropped@),
            ),
        decreases keys.len() - i,
    {
        let edit = &keys[i];
        assert(keys@.take(i + 1).drop_last() =~= keys@.take(i as int));
        assert(keys@.take(i + 1).last() == keys@[i as int]);
        if !(edit.dropped || (edit.is_new() && !edit.wants_a_statement()) || uses_dropped_columns(
            &edit.columns,
            dropped,
        )) {
            let ghost before = text::views(out@);
            out.push(foreign_key_clause(Engine::Sqlite, edit, renames));
            assert(text::views(out@) =~= before.push(
                key_clause_spec(Engine::Sqlite, *edit, sqltext::rename_views(renames@)),
            ));
        }
        i = i + 1;
    }
    assert(keys@.take(keys.len() as int) =~= keys@);
    out
}

// ---------------------------------------------------------------------------
// Stored SQL that reads a dropped column

/// What the rebuild says of stored SQL that reads a dropped column.
pub open spec fn dropped_reference(
    kind: Seq<char>,
    name: Seq<char>,
    column: Seq<char>,
) -> Seq<char> {
    "the "@ + kind + " "@ + name + " uses the dropped column "@ + column + "; remove it first"@
}

/// The refusal for the first of `dropped` that `sql` names, if any.
pub open spec fn refusal_spec(
    sql: Seq<char>,
    dropped: Seq<Seq<char>>,
    kind: Seq<char>,
    name: Seq<char>,
) -> Option<Seq<char>>
    decreases dropped.len(),
{
    if dropped.len() == 0 {
        None
    } else if sqltext::mentions_spec(sql, dropped[0]) {
        Some(dropped_reference(kind, name, dropped[0]))
    } else {
        refusal_spec(sql, dropped.drop_first(), kind, name)
    }
}

/// Refuse to replay `sql` when it reads a column the rebuild is dropping;
/// its `CREATE` would fail and roll the whole rebuild back for no clear
/// reason.
pub fn refuse_dropped_reference(sql: &str, dropped: &Vec<String>, kind: &str, name: &str) -> (r:
    Result<(), String>)
    ensures
        check_is(r, refusal_spec(sql@, text::views(dropped@), kind@, name@)),
{
    let ghost all = text::views(dropped@);
    let mut i: usize = 0;
    assert(all.skip(0) =~= all);
    while i < dropped.len()
        invariant
            i <= dropped.len(),
            all == text::views(dropped@),
            refusal_spec(sql@, all, kind@, name@) == refusal_spec(
                sql@,
                all.skip(i as int),
                kind@,
                name@,
            ),
        decreases dropped.len() - i,
    {
        let column = &dropped[i];
        assert(all.skip(i as int)[0] == column@);
        if mentions(sql, column.as_str()) {
            let mut message = String::from_str("the ");
            message.append(kind);
            message.append(" ");
            message.append(name);
            message.append(" uses the dropped column ");
            message.append(column.as_str());
            message.append("; remove it first");
            return Err(message);
        }
        assert(all.skip(i as int).drop_first() =~= all.skip(i + 1));
        i = i + 1;
    }
    Ok(())
}

// ---------------------------------------------------------------------------
// What a rebuild cannot carry

pub open spec fn virtual_reason() -> Seq<char> {
    "this is a virtual table, which cannot be rebuilt; change it in a query tab instead"@
}

pub open spec fn check_reason() -> Seq<char> {
    "this table has a CHECK constraint, which a rebuild would not carry; change it in a query tab instead"@
}

pub open spec fn collate_reason() -> Seq<char> {
    "this table has a COLLATE clause, which a rebuild would not carry; change it in a query tab instead"@
}

pub open spec fn generated_reason() -> Seq<char> {
    "this table has a generated column, which a rebuild would not carry; change it in a query tab instead"@
}

pub open spec fn autoincrement_reason() -> Seq<char> {
    "this table's key uses AUTOINCREMENT, which a rebuild would not carry; change it in a query tab instead"@
}

pub open spec fn settings_reason() -> Seq<char> {
    "this table is WITHOUT ROWID or STRICT, which a rebuild would not carry; change it in a query tab instead"@
}

/// Why a table's stored definition cannot be rebuilt, if it cannot: a
/// virtual table, or anything the rebuilt table's definition has no place
/// for (a `CHECK`, a collation, a generated column, `AUTOINCREMENT`, or a
/// table setting), which the copy would silently lose.
pub open spec fn unsupported_spec(create_sql: Seq<char>) -> Option<Seq<char>> {
    let words = sqltext::words(create_sql);
    if words.len() > 0 && words[0] == "CREATE"@ && words.contains("VIRTUAL"@) {
        Some(virtual_reason())
    } else if words.contains("CHECK"@) {
        Some(check_reason())
    } else if words.contains("COLLATE"@) {
        Some(collate_reason())
    } else if words.contains("GENERATED"@) {
        Some(generated_reason())
    } else if words.contains("AUTOINCREMENT"@) {
        Some(autoincrement_reason())
    } else if words.contains("WITHOUT"@) || words.contains("STRICT"@) {
        Some(settings_reason())
    } else {
        None
    }
}

/// Whether `words` holds `word`.
fn has_word(words: &Vec<Vec<char>>, word: &str) -> (r: bool)
    ensures
        r == words@.map_values(|w: Vec<char>| w@).contains(word@),
{
    let target = chars_of(word);
    let ghost all = words@.map_values(|w: Vec<char>| w@);
    let mut i: usize = 0;
    while i < words.len()
        invariant
            i <= words.len(),
            target@ == word@,
            all == words@.map_values(|w: Vec<char>| w@),
            forall|k: int| 0 <= k < i ==> (#[trigger] all[k]) != word@,
        decreases words.len() - i,
    {
        if chars_eq(&words[i], &target) {
            assert(all[i as int] == word@);
            return true;
        }
        i = i + 1;
    }
    false
}

/// Why a table's stored definition cannot be rebuilt, if it cannot.
pub fn unsupported(create_sql: &str) -> (r: Option<String>)
    ensures
        text::opt_view(r) == unsupported_spec(create_sql@),
{
    let words = upper_words(create_sql);
    let ghost all = words@.map_values(|w: Vec<char>| w@);
    let first_is_create = if words.len() > 0 {
        let create = chars_of("CREATE");
        assert(all[0] == words@[0]@);
        chars_eq(&words[0], &create)
    } else {
        false
    };
    if first_is_create && has_word(&words, "VIRTUAL") {
        return Some(
            String::from_str(
                "this is a virtual table, which cannot be rebuilt; change it in a query tab instead",
            ),
        );
    }
    if has_word(&words, "CHECK") {
        return Some(
            String::from_str(
                "this table has a CHECK constraint, which a rebuild would not carry; change it in a query tab instead",
            ),
        );
    }
    if has_word(&words, "COLLATE") {
        return Some(
            String::from_str(
                "this table has a COLLATE clause, which a rebuild would not carry; change it in a query tab instead",
            ),
        );
    }
    if has_word(&words, "GENERATED") {
        return Some(
            String::from_str(
                "this table has a generated column, which a rebuild would not carry; change it in a query tab instead",
            ),
        );
    }
    if has_word(&words, "AUTOINCREMENT") {
        return Some(
            String::from_str(
                "this table's key uses AUTOINCREMENT, which a rebuild would not carry; change it in a query tab instead",
            ),
        );
    }
    if has_word(&words, "WITHOUT") || has_word(&words, "STRICT") {
        return Some(
            String::from_str(
                "this table is WITHOUT ROWID or STRICT, which a rebuild would not carry; change it in a query tab instead",
            ),
        );
    }
    None
}

// ---------------------------------------------------------------------------
// Indexes, triggers, and views

/// The first stored definition named exactly `name`, if any.
pub open spec fn first_stored(defs: Seq<StoredDefinition>, name: Seq<char>) -> Option<
    StoredDefinition,
>
    decreases defs.len(),
{
    if defs.len() == 0 {
        None
    } else if defs[0].name@ == name {
        Some(defs[0])
    } else {
        first_stored(defs.drop_first(), name)
    }
}

fn find_stored(defs: &Vec<StoredDefinition>, name: &String) -> (r: Option<usize>)
    ensures
        match r {
            Some(k) => k < defs.len() && first_stored(defs@, name@) == Some(defs@[k as int]),
            None => first_stored(defs@, name@) is None,
        },
{
    let mut i: usize = 0;
    assert(defs@.skip(0) =~= defs@);
    while i < defs.len()
        invariant
            i <= defs.len(),
            first_stored(defs@, name@) == first_stored(defs@.skip(i as int), name@),
        decreases defs.len() - i,
    {
        assert(defs@.skip(i as int)[0] == defs@[i as int]);
        if defs[i].name == *name {
            return Some(i);
        }
        assert(defs@.skip(i as int).drop_first() =~= defs@.skip(i + 1));
        i = i + 1;
    }
    None
}

/// The `CREATE INDEX` for an index added by hand, on the rebuilt table.
pub open spec fn added_index_spec(
    edit: IndexEdit,
    table: Seq<char>,
    renames: Seq<(Seq<char>, Seq<char>)>,
) -> Seq<char> {
    "CREATE "@ + (if edit.unique {
        "UNIQUE "@
    } else {
        Seq::empty()
    }) + "INDEX "@ + db::quoted(edit.name@, Engine::Sqlite) + " ON "@ + table + " ("@
        + sql::list_spec(renamed_all(text::views(edit.columns@), renames), Engine::Sqlite) + ")"@
}

/// The index statements a rebuild replays after the swap, and the `UNIQUE`
/// table constraints that stand for the indexes behind them; or the first
/// refusal.
pub type IndexPlan = (Seq<Seq<char>>, Seq<Seq<char>>);

/// What each index row becomes in a rebuild: an index added by hand is
/// created on the new table; an explicit index is replayed as written, with
/// renames applied; the index behind a `UNIQUE` constraint goes back as a
/// table constraint; the primary key is restated with the table.
pub open spec fn index_plan(
    indexes: Seq<IndexEdit>,
    stored: Seq<StoredDefinition>,
    renames: Seq<(Seq<char>, Seq<char>)>,
    dropped: Seq<Seq<char>>,
    table: Seq<char>,
) -> Result<IndexPlan, Seq<char>>
    decreases indexes.len(),
{
    if indexes.len() == 0 {
        Ok((Seq::empty(), Seq::empty()))
    } else {
        match index_plan(indexes.drop_last(), stored, renames, dropped, table) {
            Err(e) => Err(e),
            Ok((recreations, uniques)) => {
                let edit = indexes.last();
                if edit.dropped {
                    Ok((recreations, uniques))
                } else {
                    match edit.original {
                        None => if edit.primary_key || edit.columns@.len() == 0 || uses_dropped(
                            text::views(edit.columns@),
                            dropped,
                        ) {
                            Ok((recreations, uniques))
                        } else if text::blank(edit.name@) {
                            Err(sql::index_needs_a_name())
                        } else {
                            Ok((recreations.push(added_index_spec(edit, table, renames)), uniques))
                        },
                        Some(o) => if o.is_primary_key {
                            Ok((recreations, uniques))
                        } else {
                            match first_stored(stored, o.name@) {
                                Some(def) => match refusal_spec(
                                    def.sql@,
                                    dropped,
                                    "index"@,
                                    def.name@,
                                ) {
                                    Some(m) => Err(m),
                                    None => Ok(
                                        (
                                            recreations.push(
                                                sqltext::rewritten(def.sql@, renames),
                                            ),
                                            uniques,
                                        ),
                                    ),
                                },
                                None => if o.unique && !uses_dropped(
                                    text::views(o.columns@),
                                    dropped,
                                ) {
                                    Ok(
                                        (
                                            recreations,
                                            uniques.push(
                                                "UNIQUE ("@ + sql::list_spec(
                                                    renamed_all(text::views(o.columns@), renames),
                                                    Engine::Sqlite,
                                                ) + ")"@,
                                            ),
                                        ),
                                    )
                                } else {
                                    Ok((recreations, uniques))
                                },
                            }
                        },
                    }
                }
            },
        }
    }
}

proof fn lemma_index_plan_err_stays(
    indexes: Seq<IndexEdit>,
    stored: Seq<StoredDefinition>,
    renames: Seq<(Seq<char>, Seq<char>)>,
    dropped: Seq<Seq<char>>,
    table: Seq<char>,
    k: int,
)
    requires
        0 <= k <= indexes.len(),
        index_plan(indexes.take(k), stored, renames, dropped, table) is Err,
    ensures
        index_plan(indexes, stored, renames, dropped, table) == index_plan(
            indexes.take(k),
            stored,
            renames,
            dropped,
            table,
        ),
    decreases indexes.len() - k,
{
    if k < indexes.len() {
        assert(indexes.take(k + 1).drop_last() =~= indexes.take(k));
        lemma_index_plan_err_stays(indexes, stored, renames, dropped, table, k + 1);
    } else {
        assert(indexes.take(k) =~= indexes);
    }
}

fn plan_indexes(
    indexes: &Vec<IndexEdit>,
    source: &RebuildSource,
    renames: &Vec<(String, String)>,
    dropped: &Vec<String>,
    table: &str,
) -> (r: Result<(Vec<String>, Vec<String>), String>)
    ensures
        match (
            r,
            index_plan(
                indexes@,
                source.indexes@,
                sqltext::rename_views(renames@),
                text::views(dropped@),
                table@,
            ),
        ) {
            (Ok((a, b)), Ok((sa, sb))) => text::views(a@) == sa && text::views(b@) == sb,
            (Err(e), Err(m)) => e@ == m,
            _ => false,
        },
{
    let ghost rn = sqltext::rename_views(renames@);
    let ghost dr = text::views(dropped@);
    let mut recreations: Vec<String> = Vec::new();
    let mut uniques: Vec<String> = Vec::new();
    let mut i: usize = 0;
    assert(indexes@.take(0) =~= Seq::<IndexEdit>::empty());
    assert(text::views(recreations@) =~= Seq::<Seq<char>>::empty());
    assert(text::views(uniques@) =~= Seq::<Seq<char>>::empty());
    while i < indexes.len()
        invariant
            i <= indexes.len(),
            rn == sqltext::rename_views(renames@),
            dr == text::views(dropped@),
            index_plan(indexes@.take(i as int), source.indexes@, rn, dr, table@) == Ok::<
                IndexPlan,
                Seq<char>,
            >((text::views(recreations@), text::views(uniques@))),
        decreases indexes.len() - i,
    {
        let edit = &indexes[i];
        assert(indexes@.take(i + 1).drop_last() =~= indexes@.take(i as int));
        assert(indexes@.take(i + 1).last() == indexes@[i as int]);
        let ghost r0 = text::views(recreations@);
        let ghost u0 = text::views(uniques@);
        if !edit.dropped {
            match &edit.original {
                None => {
                    if !(edit.primary_key || edit.columns.len() == 0 || uses_dropped_columns(
                        &edit.columns,
                        dropped,
                    )) {
                        if is_blank(edit.name.as_str()) {
                            proof {
                                lemma_index_plan_err_stays(
                                    indexes@,
                                    source.indexes@,
                                    rn,
                                    dr,
                                    table@,
                                    i + 1,
                                );
                            }
                            return Err(String::from_str("an index needs a name"));
                        }
                        let columns = renamed_columns(&edit.columns, renames);
                        let mut statement = String::from_str("CREATE ");
                        if edit.unique {
                            statement.append("UNIQUE ");
                        }
                        statement.append("INDEX ");
                        statement.append(
                            quote_identifier(edit.name.as_str(), Engine::Sqlite).as_str(),
                        );
                        statement.append(" ON ");
                        statement.append(table);
                        statement.append(" (");
                        statement.append(columns_list(&columns).as_str());
                        statement.append(")");
                        recreations.push(statement);
                        assert(text::views(recreations@) =~= r0.push(
                            added_index_spec(*edit, table@, rn),
                        ));
                    }
                },
                Some(original) => {
                    if !original.is_primary_key {
                        match find_stored(&source.indexes, &original.name) {
                            Some(k) => {
                                let stored = &source.indexes[k];
                                match refuse_dropped_reference(
                                    stored.sql.as_str(),
                                    dropped,
                                    "index",
                                    stored.name.as_str(),
                                ) {
                                    Err(e) => {
                                        proof {
                                            lemma_index_plan_err_stays(
                                                indexes@,
                                                source.indexes@,
                                                rn,
                                                dr,
                                                table@,
                                                i + 1,
                                            );
                                        }
                                        return Err(e);
                                    },
                                    Ok(()) => {
                                        recreations.push(
                                            rewrite_identifiers(stored.sql.as_str(), renames),
                                        );
                                        assert(text::views(recreations@) =~= r0.push(
                                            sqltext::rewritten(stored.sql@, rn),
                                        ));
                                    },
                                }
                            },
                            None => {
                                if original.unique && !uses_dropped_columns(
                                    &original.columns,
                                    dropped,
                                ) {
                                    let columns = renamed_columns(&original.columns, renames);
                                    let mut constraint = String::from_str("UNIQUE (");
                                    constraint.append(columns_list(&columns).as_str());
                                    constraint.append(")");
                                    uniques.push(constraint);
                                    assert(text::views(uniques@) =~= u0.push(
                                        "UNIQUE ("@ + sql::list_spec(
                                            renamed_all(text::views(original.columns@), rn),
                                            Engine::Sqlite,
                                        ) + ")"@,
                                    ));
                                }
                            },
                        }
                    }
                },
            }
        }
        i = i + 1;
    }
    assert(indexes@.take(indexes.len() as int) =~= indexes@);
    Ok((recreations, uniques))
}

/// The refusal for the first view that reads the table and a dropped column,
/// if any: a rebuild would leave it dangling.
pub open spec fn view_refusal_spec(
    views: Seq<StoredDefinition>,
    table: Seq<char>,
    dropped: Seq<Seq<char>>,
) -> Option<Seq<char>>
    decreases views.len(),
{
    if views.len() == 0 {
        None
    } else if sqltext::mentions_spec(views[0].sql@, table) && refusal_spec(
        views[0].sql@,
        dropped,
        "view"@,
        views[0].name@,
    ) is Some {
        refusal_spec(views[0].sql@, dropped, "view"@, views[0].name@)
    } else {
        view_refusal_spec(views.drop_first(), table, dropped)
    }
}

fn check_views(views: &Vec<StoredDefinition>, table: &str, dropped: &Vec<String>) -> (r: Result<
    (),
    String,
>)
    ensures
        check_is(r, view_refusal_spec(views@, table@, text::views(dropped@))),
{
    let mut i: usize = 0;
    assert(views@.skip(0) =~= views@);
    while i < views.len()
        invariant
            i <= views.len(),
            view_refusal_spec(views@, table@, text::views(dropped@)) == view_refusal_spec(
                views@.skip(i as int),
                table@,
                text::views(dropped@),
            ),
        decreases views.len() - i,
    {
        let view = &views[i];
        assert(views@.skip(i as int)[0] == views@[i as int]);
        if mentions(view.sql.as_str(), table) {
            match refuse_dropped_reference(view.sql.as_str(), dropped, "view", view.name.as_str()) {
                Err(e) => {
                    return Err(e);
                },
                Ok(()) => {},
            }
        }
        assert(views@.skip(i as int).drop_first() =~= views@.skip(i + 1));
        i = i + 1;
    }
    Ok(())
}

/// Each trigger replayed with renames applied; or the refusal of the first
/// one that reads a dropped column.
pub open spec fn trigger_plan(
    triggers: Seq<StoredDefinition>,
    dropped: Seq<Seq<char>>,
    renames: Seq<(Seq<char>, Seq<char>)>,
) -> Result<Seq<Seq<char>>, Seq<char>>
    decreases triggers.len(),
{
    if triggers.len() == 0 {
        Ok(Seq::empty())
    } else {
        match trigger_plan(triggers.drop_last(), dropped, renames) {
            Err(e) => Err(e),
            Ok(before) => {
                let t = triggers.last();
                match refusal_spec(t.sql@, dropped, "trigger"@, t.name@) {
                    Some(m) => Err(m),
                    None => Ok(before.push(sqltext::rewritten(t.sql@, renames))),
                }
            },
        }
    }
}

proof fn lemma_trigger_plan_err_stays(
    triggers: Seq<StoredDefinition>,
    dropped: Seq<Seq<char>>,
    renames: Seq<(Seq<char>, Seq<char>)>,
    k: int,
)
    requires
        0 <= k <= triggers.len(),
        trigger_plan(triggers.take(k), dropped, renames) is Err,
    ensures
        trigger_plan(triggers, dropped, renames) == trigger_plan(triggers.take(k), dropped, renames),
    decreases triggers.len() - k,
{
    if k < triggers.len() {
        assert(triggers.take(k + 1).drop_last() =~= triggers.take(k));
        lemma_trigger_plan_err_stays(triggers, dropped, renames, k + 1);
    } else {
        assert(triggers.take(k) =~= triggers);
    }
}

fn plan_triggers(
    triggers: &Vec<StoredDefinition>,
    dropped: &Vec<String>,
    renames: &Vec<(String, String)>,
) -> (r: Result<Vec<String>, String>)
    ensures
        sql::outcome_is(
            r,
            trigger_plan(triggers@, text::views(dropped@), sqltext::rename_views(renames@)),
        ),
{
    let mut out: Vec<String> = Vec::new();
    let mut i: usize = 0;
    assert(triggers@.take(0) =~= Seq::<StoredDefinition>::empty());
    assert(text::views(out@) =~= Seq::<Seq<char>>::empty());
    while i < triggers.len()
        invariant
            i <= triggers.len(),
            trigger_plan(
                triggers@.take(i as int),
                text::views(dropped@),
                sqltext::rename_views(renames@),
            ) == Ok::<Seq<Seq<char>>, Seq<char>>(text::views(out@)),
        decreases triggers.len() - i,
    {
        let trigger = &triggers[i];
        assert(triggers@.take(i + 1).drop_last() =~= triggers@.take(i as int));
        assert(triggers@.take(i + 1).last() == triggers@[i as int]);
        match refuse_dropped_reference(
            trigger.sql.as_str(),
            dropped,
            "trigger",
            trigger.name.as_str(),
        ) {
            Err(e) => {
                proof {
                    lemma_trigger_plan_err_stays(
                        triggers@,
                        text::views(dropped@),
                        sqltext::rename_views(renames@),
                        i + 1,
                    );
                }
                return Err(e);
            },
            Ok(()) => {
                let ghost before = text::views(out@);
                out.push(rewrite_identifiers(trigger.sql.as_str(), renames));
                assert(text::views(out@) =~= before.push(
                    sqltext::rewritten(trigger.sql@, sqltext::rename_views(renames@)),
                ));
            },
        }
        i = i + 1;
    }
    assert(triggers@.take(triggers.len() as int) =~= triggers@);
    Ok(out)
}

/// Each view that reads the table, dropped and created again with renames
/// applied.
pub open spec fn view_rewrites_spec(
    views: Seq<StoredDefinition>,
    table: Seq<char>,
    renames: Seq<(Seq<char>, Seq<char>)>,
) -> Seq<Seq<char>>
    decreases views.len(),
{
    if views.len() == 0 {
        Seq::empty()
    } else if sqltext::mentions_spec(views.last().sql@, table) {
        view_rewrites_spec(views.drop_last(), table, renames).push(
            "DROP VIEW IF EXISTS "@ + db::quoted(views.last().name@, Engine::Sqlite),
        ).push(sqltext::rewritten(views.last().sql@, renames))
    } else {
        view_rewrites_spec(views.drop_last(), table, renames)
    }
}

fn rewrite_views(
    views: &Vec<StoredDefinition>,
    table: &str,
    renames: &Vec<(String, String)>,
) -> (r: Vec<String>)
    ensures
        text::views(r@) == view_rewrites_spec(views@, table@, sqltext::rename_views(renames@)),
{
    let mut out: Vec<String> = Vec::new();
    let mut i: usize = 0;
    assert(views@.take(0) =~= Seq::<StoredDefinition>::empty());
    assert(text::views(out@) =~= Seq::<Seq<char>>::empty());
    while i < views.len()
        invariant
            i <= views.len(),
            text::views(out@) == view_rewrites_spec(
                views@.take(i as int),
                table@,
                sqltext::rename_views(renames@),
            ),
        decreases views.len() - i,
    {
        let view = &views[i];
        assert(views@.take(i + 1).drop_last() =~= views@.take(i as int));
        assert(views@.take(i + 1).last() == views@[i as int]);
        if mentions(view.sql.as_str(), table) {
            let ghost before = text::views(out@);
            let mut drop = String::from_str("DROP VIEW IF EXISTS ");
            drop.append(quote_identifier(view.name.as_str(), Engine::Sqlite).as_str());
            out.push(drop);
            out.push(rewrite_identifiers(view.sql.as_str(), renames));
            assert(text::views(out@) =~= before.push(
                "DROP VIEW IF EXISTS "@ + db::quoted(view.name@, Engine::Sqlite),
            ).push(sqltext::rewritten(view.sql@, sqltext::rename_views(renames@))));
        }
        i = i + 1;
    }
    assert(views@.take(views.len() as int) =~= views@);
    out
}

// ---------------------------------------------------------------------------
// The whole rebuild

/// The quoted name a rebuild copies the table into.
pub open spec fn scratch_spec(name: Seq<char>) -> Seq<char> {
    db::quoted("new_"@ + name, Engine::Sqlite)
}

/// The statement that creates the new table.
pub open spec fn create_spec(scratch: Seq<char>, body: Seq<Seq<char>>) -> Seq<char> {
    "CREATE TABLE "@ + scratch + " (\n    "@ + text::join(body, ",\n    "@) + "\n)"@
}

/// The statement that copies the kept columns across, when any are kept.
pub open spec fn copy_spec(
    scratch: Seq<char>,
    table: Seq<char>,
    copied: Seq<(Seq<char>, Seq<char>)>,
) -> Seq<Seq<char>> {
    if copied.len() == 0 {
        Seq::empty()
    } else {
        let destinations = copied.map_values(|p: (Seq<char>, Seq<char>)| p.0);
        let origins = copied.map_values(|p: (Seq<char>, Seq<char>)| p.1);
        seq![
            "INSERT INTO "@ + scratch + " ("@ + text::join(
                sql::quoted_all(destinations, Engine::Sqlite),
                ", "@,
            ) + ") SELECT "@ + text::join(sql::quoted_all(origins, Engine::Sqlite), ", "@)
                + " FROM "@ + table,
        ]
    }
}

/// The whole copy-and-swap, as the statements run in one transaction: create
/// the new table (kept and added columns, then its key, unique, and foreign
/// key constraints), copy the kept columns across, drop the old table, rename
/// the new one into its place, replay its indexes and triggers, and put back
/// the views that read a renamed column. Refused, with the reason, when the
/// table's definition holds what the new one could not carry, when a column
/// or a new index has no name, or when stored SQL reads a dropped column.
pub open spec fn generate_spec(
    object: DatabaseObject,
    columns: Seq<ColumnEdit>,
    indexes: Seq<IndexEdit>,
    keys: Seq<ForeignKeyEdit>,
    source: RebuildSource,
) -> Result<SpecChange, Seq<char>> {
    let name = object.name@;
    let table = db::quoted(name, Engine::Sqlite);
    let scratch = scratch_spec(name);
    match unsupported_spec(source.table_sql@) {
        Some(reason) => Err(reason),
        None => {
            let renames = rename_map_spec(columns);
            match column_plan(columns) {
                Err(e) => Err(e),
                Ok((definitions, copied, dropped)) => {
                    let key = primary_key_spec(columns, indexes, renames);
                    let key = if uses_dropped(key, dropped) {
                        Seq::empty()
                    } else {
                        key
                    };
                    let key_constraint: Seq<Seq<char>> = if key.len() > 0 {
                        seq!["PRIMARY KEY ("@ + sql::list_spec(key, Engine::Sqlite) + ")"@]
                    } else {
                        Seq::empty()
                    };
                    match index_plan(indexes, source.indexes@, renames, dropped, table) {
                        Err(e) => Err(e),
                        Ok((recreations, uniques)) => {
                            let constraints = key_constraint + uniques + key_constraints_spec(
                                keys,
                                renames,
                                dropped,
                            );
                            match view_refusal_spec(source.views@, name, dropped) {
                                Some(e) => Err(e),
                                None => match trigger_plan(source.triggers@, dropped, renames) {
                                    Err(e) => Err(e),
                                    Ok(triggers) => {
                                        let views: Seq<Seq<char>> = if renames.len() > 0 {
                                            view_rewrites_spec(source.views@, name, renames)
                                        } else {
                                            Seq::empty()
                                        };
                                        Ok(
                                            (
                                                true,
                                                seq![
                                                    create_spec(
                                                        scratch,
                                                        definitions + constraints,
                                                    ),
                                                ] + copy_spec(scratch, table, copied) + seq![
                                                    "DROP TABLE "@ + table,
                                                    "ALTER TABLE "@ + scratch + " RENAME TO "@
                                                        + table,
                                                ] + recreations + triggers + views,
                                            ),
                                        )
                                    },
                                },
                            }
                        },
                    }
                },
            }
        },
    }
}

fn push_all(out: &mut Vec<String>, more: &Vec<String>)
    ensures
        text::views(final(out)@) == text::views(old(out)@) + text::views(more@),
{
    let mut i: usize = 0;
    while i < more.len()
        invariant
            i <= more.len(),
            text::views(out@) == text::views(old(out)@) + text::views(more@).take(i as int),
        decreases more.len() - i,
    {
        sql::push_statement(out, copy_string(&more[i]));
        i = i + 1;
        assert(text::views(out@) =~= text::views(old(out)@) + text::views(more@).take(i as int));
    }
    assert(text::views(more@).take(more.len() as int) =~= text::views(more@));
}

fn copy_statement(scratch: &str, table: &str, copied: &Vec<(String, String)>) -> (r: Vec<String>)
    ensures
        text::views(r@) == copy_spec(scratch@, table@, sqltext::rename_views(copied@)),
{
    let mut out: Vec<String> = Vec::new();
    if copied.len() == 0 {
        assert(text::views(out@) =~= Seq::<Seq<char>>::empty());
        return out;
    }
    let ghost pairs = sqltext::rename_views(copied@);
    let mut destinations: Vec<String> = Vec::new();
    let mut origins: Vec<String> = Vec::new();
    let mut i: usize = 0;
    while i < copied.len()
        invariant
            i <= copied.len(),
            pairs == sqltext::rename_views(copied@),
            destinations@.len() == i,
            origins@.len() == i,
            forall|k: int|
                0 <= k < i ==> (#[trigger] destinations@[k])@ == db::quoted(
                    pairs[k].0,
                    Engine::Sqlite,
                ),
            forall|k: int|
                0 <= k < i ==> (#[trigger] origins@[k])@ == db::quoted(pairs[k].1, Engine::Sqlite),
        decreases copied.len() - i,
    {
        destinations.push(quote_identifier(copied[i].0.as_str(), Engine::Sqlite));
        origins.push(quote_identifier(copied[i].1.as_str(), Engine::Sqlite));
        i = i + 1;
    }
    assert(text::views(destinations@) =~= sql::quoted_all(
        pairs.map_values(|p: (Seq<char>, Seq<char>)| p.0),
        Engine::Sqlite,
    ));
    assert(text::views(origins@) =~= sql::quoted_all(
        pairs.map_values(|p: (Seq<char>, Seq<char>)| p.1),
        Engine::Sqlite,
    ));
    let mut statement = String::from_str("INSERT INTO ");
    statement.append(scratch);
    statement.append(" (");
    statement.append(join_strings(&destinations, ", ").as_str());
    statement.append(") SELECT ");
    statement.append(join_strings(&origins, ", ").as_str());
    statement.append(" FROM ");
    statement.append(table);
    out.push(statement);
    assert(text::views(out@) =~= copy_spec(scratch@, table@, pairs));
    out
}

/// The whole copy-and-swap, as the statements run in one transaction.
pub fn generate(
    object: &DatabaseObject,
    columns: &Vec<ColumnEdit>,
    indexes: &Vec<IndexEdit>,
    keys: &Vec<ForeignKeyEdit>,
    source: &RebuildSource,
) -> (r: Result<Change, String>)
    ensures
        change_is(r, generate_spec(*object, columns@, indexes@, keys@, *source)),
{
    let name = object.name.as_str();
    let table = quote_identifier(name, Engine::Sqlite);
    let mut scratch_name = String::from_str("new_");
    scratch_name.append(name);
    let scratch = quote_identifier(scratch_name.as_str(), Engine::Sqlite);

    if let Some(reason) = unsupported(source.table_sql.as_str()) {
        return Err(reason);
    }

    let renames = rename_map(columns);
    let (definitions, copied, dropped) = match plan_columns(columns) {
        Ok(planned) => planned,
        Err(e) => {
            return Err(e);
        },
    };

    let mut key = primary_key(columns, indexes, &renames);
    if uses_dropped_columns(&key, &dropped) {
        key = Vec::new();
        assert(text::views(key@) =~= Seq::<Seq<char>>::empty());
    }
    let mut constraints: Vec<String> = Vec::new();
    if key.len() > 0 {
        let mut constraint = String::from_str("PRIMARY KEY (");
        constraint.append(columns_list(&key).as_str());
        constraint.append(")");
        sql::push_statement(&mut constraints, constraint);
    }
    let ghost with_key = text::views(constraints@);
    proof {
        let rn = rename_map_spec(columns@);
        let k0 = primary_key_spec(columns@, indexes@, rn);
        let k1 = if uses_dropped(k0, text::views(dropped@)) { Seq::<Seq<char>>::empty() } else { k0 };
        assert(text::views(key@) == k1);
        let kc: Seq<Seq<char>> = if k1.len() > 0 {
            seq!["PRIMARY KEY ("@ + sql::list_spec(k1, Engine::Sqlite) + ")"@]
        } else {
            Seq::empty()
        };
        assert(with_key == kc);
    }

    let (recreations, uniques) = match plan_indexes(
        indexes,
        source,
        &renames,
        &dropped,
        table.as_str(),
    ) {
        Ok(planned) => planned,
        Err(e) => {
            return Err(e);
        },
    };
    push_all(&mut constraints, &uniques);
    let foreign = key_constraints(keys, &renames, &dropped);
    push_all(&mut constraints, &foreign);

    match check_views(&source.views, name, &dropped) {
        Err(e) => {
            return Err(e);
        },
        Ok(()) => {},
    }

    let mut body = copy_strings(&definitions);
    push_all(&mut body, &constraints);
    let mut create = String::from_str("CREATE TABLE ");
    create.append(scratch.as_str());
    create.append(" (\n    ");
    create.append(join_strings(&body, ",\n    ").as_str());
    create.append("\n)");

    assert(text::views(body@) =~= text::views(definitions@) + (with_key + text::views(uniques@)
        + text::views(foreign@)));
    let ghost before_copy = create@;
    let mut statements: Vec<String> = Vec::new();
    sql::push_statement(&mut statements, create);
    let copy = copy_statement(scratch.as_str(), table.as_str(), &copied);
    push_all(&mut statements, &copy);
    let mut drop = String::from_str("DROP TABLE ");
    drop.append(table.as_str());
    let mut rename = String::from_str("ALTER TABLE ");
    rename.append(scratch.as_str());
    rename.append(" RENAME TO ");
    rename.append(table.as_str());
    sql::push_statement(&mut statements, drop);
    sql::push_statement(&mut statements, rename);
    push_all(&mut statements, &recreations);

    let triggers = match plan_triggers(&source.triggers, &dropped, &renames) {
        Ok(t) => t,
        Err(e) => {
            return Err(e);
        },
    };
    push_all(&mut statements, &triggers);

    if renames.len() > 0 {
        let views = rewrite_views(&source.views, name, &renames);
        push_all(&mut statements, &views);
    }
    let ghost view_part: Seq<Seq<char>> = if renames.len() > 0 {
        view_rewrites_spec(source.views@, object.name@, rename_map_spec(columns@))
    } else {
        Seq::empty()
    };
    assert(text::views(statements@) =~= seq![before_copy] + text::views(copy@) + seq![
        drop@,
        rename@,
    ] + text::views(recreations@) + text::views(triggers@) + view_part);
    proof {
        let rn = rename_map_spec(columns@);
        assert(column_plan(columns@) == Ok::<ColumnPlan, Seq<char>>((text::views(definitions@), sqltext::rename_views(copied@), text::views(dropped@))));
        assert(unsupported_spec(source.table_sql@) is None);
        assert(index_plan(indexes@, source.indexes@, rn, text::views(dropped@), table@) == Ok::<IndexPlan, Seq<char>>((text::views(recreations@), text::views(uniques@))));
        assert(view_refusal_spec(source.views@, object.name@, text::views(dropped@)) is None);
        assert(trigger_plan(source.triggers@, text::views(dropped@), rn) == Ok::<Seq<Seq<char>>, Seq<char>>(text::views(triggers@)));
        assert(table@ == db::quoted(object.name@, Engine::Sqlite));
        assert(scratch@ == scratch_spec(object.name@));
    }
    Ok(Change::Rebuild(statements))
}

// ---------------------------------------------------------------------------
// Choosing between SQLite's own ALTER TABLE and a rebuild

/// Whether `name` is one of the table's explicit indexes rather than the
/// index behind a `UNIQUE` or `PRIMARY KEY` constraint.
pub open spec fn has_stored_sql_spec(source: Option<&RebuildSource>, name: Seq<char>) -> bool {
    match source {
        Some(s) => stores_index(s, name),
        None => false,
    }
}

/// Whether `source` holds SQL of its own for an index named `name`.
pub open spec fn stores_index(source: &RebuildSource, name: Seq<char>) -> bool {
    exists|k: int|
        0 <= k < source.indexes@.len() && (#[trigger] source.indexes@[k]).name@ == name
}

/// Whether `name` is one of the table's explicit indexes.
pub fn has_stored_sql(source: Option<&RebuildSource>, name: &String) -> (r: bool)
    ensures
        r == has_stored_sql_spec(source, name@),
{
    match source {
        None => false,
        Some(s) => {
            let mut i: usize = 0;
            while i < s.indexes.len()
                invariant
                    source == Some(s),
                    i <= s.indexes.len(),
                    forall|k: int| 0 <= k < i ==> (#[trigger] s.indexes@[k]).name@ != name@,
                decreases s.indexes.len() - i,
            {
                if s.indexes[i].name == *name {
                    assert((s.indexes@[i as int]).name@ == name@);
                    assert(stores_index(s, name@));
                    return true;
                }
                i = i + 1;
            }
            false
        },
    }
}

/// Whether an index row needs the table restated: adding or dropping a
/// primary key, or dropping the index behind a `UNIQUE` constraint, which
/// SQLite will not let go with a plain `DROP INDEX`.
pub open spec fn index_rebuilds(edit: IndexEdit, source: Option<&RebuildSource>) -> bool {
    adds_key(edit) || drops_key(edit) || (edit.dropped && match edit.original {
        Some(o) => !o.is_primary_key && !has_stored_sql_spec(source, o.name@),
        None => false,
    })
}

/// Whether the edits reach something SQLite's plain `ALTER TABLE` cannot do.
pub open spec fn needs_rebuild_spec(
    columns: Seq<ColumnEdit>,
    indexes: Seq<IndexEdit>,
    keys: Seq<ForeignKeyEdit>,
    source: Option<&RebuildSource>,
) -> bool {
    (exists|k: int| 0 <= k < columns.len() && (#[trigger] columns[k]).rebuilds_spec()) || (exists|
        k: int,
    | 0 <= k < indexes.len() && index_rebuilds(#[trigger] indexes[k], source)) || (exists|k: int|
        0 <= k < keys.len() && (#[trigger] keys[k]).wants_spec())
}

/// Whether the edits reach something SQLite's plain `ALTER TABLE` cannot do.
pub fn needs_rebuild(
    columns: &Vec<ColumnEdit>,
    indexes: &Vec<IndexEdit>,
    keys: &Vec<ForeignKeyEdit>,
    source: Option<&RebuildSource>,
) -> (r: bool)
    ensures
        r == needs_rebuild_spec(columns@, indexes@, keys@, source),
{
    let mut i: usize = 0;
    while i < columns.len()
        invariant
            i <= columns.len(),
            forall|k: int| 0 <= k < i ==> !(#[trigger] columns@[k]).rebuilds_spec(),
        decreases columns.len() - i,
    {
        if columns[i].rebuilds() {
            assert(columns@[i as int].rebuilds_spec());
            return true;
        }
        i = i + 1;
    }
    let mut i: usize = 0;
    while i < indexes.len()
        invariant
            i <= indexes.len(),
            forall|k: int| 0 <= k < i ==> !index_rebuilds(#[trigger] indexes@[k], source),
        decreases indexes.len() - i,
    {
        let edit = &indexes[i];
        let dropped_auto = match &edit.original {
            Some(o) => edit.dropped && !o.is_primary_key && !has_stored_sql(source, &o.name),
            None => false,
        };
        let drops = match &edit.original {
            Some(o) => edit.dropped && o.is_primary_key,
            None => false,
        };
        if (edit.is_new() && edit.primary_key && !edit.dropped && edit.columns.len() > 0) || drops
            || dropped_auto {
            assert(index_rebuilds(indexes@[i as int], source));
            return true;
        }
        i = i + 1;
    }
    let mut i: usize = 0;
    while i < keys.len()
        invariant
            i <= keys.len(),
            forall|k: int| 0 <= k < i ==> !(#[trigger] keys@[k]).wants_spec(),
        decreases keys.len() - i,
    {
        if keys[i].wants_a_statement() {
            assert(keys@[i as int].wants_spec());
            return true;
        }
        i = i + 1;
    }
    false
}

/// The renames SQLite's own `ALTER TABLE` makes for the changed columns, in
/// order; or the refusal of a changed column left without a name.
pub open spec fn native_renames(target: Seq<char>, columns: Seq<ColumnEdit>) -> Result<
    Seq<Seq<char>>,
    Seq<char>,
>
    decreases columns.len(),
{
    if columns.len() == 0 {
        Ok(Seq::empty())
    } else {
        match native_renames(target, columns.drop_last()) {
            Err(e) => Err(e),
            Ok(before) => {
                let edit = columns.last();
                if !edit.changed_spec() {
                    Ok(before)
                } else if text::blank(edit.name@) {
                    Err(sql::needs_a_name())
                } else {
                    Ok(before.push(sql::rename_spec(target, edit, Engine::Sqlite)))
                }
            },
        }
    }
}

proof fn lemma_native_renames_err_stays(target: Seq<char>, columns: Seq<ColumnEdit>, k: int)
    requires
        0 <= k <= columns.len(),
        native_renames(target, columns.take(k)) is Err,
    ensures
        native_renames(target, columns) == native_renames(target, columns.take(k)),
    decreases columns.len() - k,
{
    if k < columns.len() {
        assert(columns.take(k + 1).drop_last() =~= columns.take(k));
        lemma_native_renames_err_stays(target, columns, k + 1);
    } else {
        assert(columns.take(k) =~= columns);
    }
}

/// The changes SQLite's own `ALTER TABLE` can express: renames, adds, drops,
/// plain indexes, as separate statements in the usual order.
pub open spec fn native_plan_spec(
    object: DatabaseObject,
    columns: Seq<ColumnEdit>,
    indexes: Seq<IndexEdit>,
    keys: Seq<ForeignKeyEdit>,
) -> Result<SpecChange, Seq<char>> {
    let engine = Engine::Sqlite;
    let target = sql::target_spec(object, engine);
    match native_renames(target, columns) {
        Err(e) => Err(e),
        Ok(renames) => {
            let statements = renames + sql::add_part(engine, target, columns) + sql::drop_part(
                engine,
                target,
                columns,
            );
            match sql::index_statements_spec(engine, object, indexes) {
                Err(e) => Err(e),
                Ok(i) => match sql::key_statements_spec(engine, object, keys) {
                    Err(e) => Err(e),
                    Ok(k) => Ok((false, statements + i + k)),
                },
            }
        },
    }
}

/// The changes SQLite's own `ALTER TABLE` can express.
pub fn native_plan(
    object: &DatabaseObject,
    columns: &Vec<ColumnEdit>,
    indexes: &Vec<IndexEdit>,
    keys: &Vec<ForeignKeyEdit>,
) -> (r: Result<Change, String>)
    ensures
        change_is(r, native_plan_spec(*object, columns@, indexes@, keys@)),
{
    let engine = Engine::Sqlite;
    let target = target(object, engine);
    let mut statements: Vec<String> = Vec::new();

    let mut i: usize = 0;
    assert(columns@.take(0) =~= Seq::<ColumnEdit>::empty());
    assert(text::views(statements@) =~= Seq::<Seq<char>>::empty());
    while i < columns.len()
        invariant
            i <= columns.len(),
            engine == Engine::Sqlite,
            target@ == sql::target_spec(*object, engine),
            native_renames(target@, columns@.take(i as int)) == Ok::<Seq<Seq<char>>, Seq<char>>(
                text::views(statements@),
            ),
        decreases columns.len() - i,
    {
        let edit = &columns[i];
        assert(columns@.take(i + 1).drop_last() =~= columns@.take(i as int));
        assert(columns@.take(i + 1).last() == columns@[i as int]);
        if edit.changed() {
            if is_blank(edit.name.as_str()) {
                assert(native_renames(target@, columns@.take(i + 1)) == Err::<
                    Seq<Seq<char>>,
                    Seq<char>,
                >(sql::needs_a_name()));
                proof {
                    lemma_native_renames_err_stays(target@, columns@, i + 1);
                }
                assert(native_renames(target@, columns@) == Err::<
                    Seq<Seq<char>>,
                    Seq<char>,
                >(sql::needs_a_name()));
                assert(native_plan_spec(*object, columns@, indexes@, keys@) == Err::<
                    SpecChange,
                    Seq<char>,
                >(sql::needs_a_name()));
                return Err(String::from_str("a column needs a name"));
            }
            sql::push_statement(
                &mut statements,
                sql::rename_statement(target.as_str(), edit, Engine::Sqlite),
            );
        }
        i = i + 1;
    }
    assert(columns@.take(columns.len() as int) =~= columns@);
    let ghost renamed_part = text::views(statements@);

    let mut i: usize = 0;
    while i < columns.len()
        invariant
            i <= columns.len(),
            text::views(statements@) == renamed_part + sql::add_part(
                engine,
                target@,
                columns@.take(i as int),
            ),
        decreases columns.len() - i,
    {
        let edit = &columns[i];
        assert(columns@.take(i + 1).drop_last() =~= columns@.take(i as int));
        assert(columns@.take(i + 1).last() == columns@[i as int]);
        if edit.is_new() && !edit.dropped && !is_blank(edit.name.as_str()) {
            let mut rest = String::from_str(" ADD COLUMN ");
            rest.append(column_clause(engine, edit).as_str());
            sql::push_statement(&mut statements, sql::alter_string(target.as_str(), rest.as_str()));
        }
        i = i + 1;
    }
    let ghost added_part = text::views(statements@);

    let mut i: usize = 0;
    while i < columns.len()
        invariant
            i <= columns.len(),
            text::views(statements@) == added_part + sql::drop_part(
                engine,
                target@,
                columns@.take(i as int),
            ),
        decreases columns.len() - i,
    {
        let edit = &columns[i];
        assert(columns@.take(i + 1).drop_last() =~= columns@.take(i as int));
        assert(columns@.take(i + 1).last() == columns@[i as int]);
        if edit.dropped {
            if let Some(original) = &edit.original {
                let mut rest = String::from_str(" DROP COLUMN ");
                rest.append(quote_identifier(original.name.as_str(), engine).as_str());
                sql::push_statement(
                    &mut statements,
                    sql::alter_string(target.as_str(), rest.as_str()),
                );
            }
        }
        i = i + 1;
    }
    assert(columns@.take(columns.len() as int) =~= columns@);

    match generate_index_statements(engine, object, indexes) {
        Ok(more) => push_all(&mut statements, &more),
        Err(e) => {
            return Err(e);
        },
    }
    match generate_foreign_key_statements(engine, object, keys) {
        Ok(more) => push_all(&mut statements, &more),
        Err(e) => {
            return Err(e);
        },
    }
    Ok(Change::Statements(statements))
}

/// What a rebuild without the table's stored definition is told.
pub open spec fn unreadable_source() -> Seq<char> {
    "the table's stored definition could not be read, so it cannot be rebuilt"@
}

/// SQLite: its own `ALTER TABLE` while that will do, one rebuild as soon as it
/// will not.
pub open spec fn sqlite_plan_spec(
    object: DatabaseObject,
    columns: Seq<ColumnEdit>,
    indexes: Seq<IndexEdit>,
    keys: Seq<ForeignKeyEdit>,
    source: Option<&RebuildSource>,
) -> Result<SpecChange, Seq<char>> {
    if !needs_rebuild_spec(columns, indexes, keys, source) {
        native_plan_spec(object, columns, indexes, keys)
    } else {
        match source {
            None => Err(unreadable_source()),
            Some(s) => generate_spec(object, columns, indexes, keys, *s),
        }
    }
}

/// SQLite: its own `ALTER TABLE` while that will do, one rebuild as soon as it
/// will not.
pub fn sqlite_plan(
    object: &DatabaseObject,
    columns: &Vec<ColumnEdit>,
    indexes: &Vec<IndexEdit>,
    keys: &Vec<ForeignKeyEdit>,
    source: Option<&RebuildSource>,
) -> (r: Result<Change, String>)
    ensures
        change_is(r, sqlite_plan_spec(*object, columns@, indexes@, keys@, source)),
{
    if !needs_rebuild(columns, indexes, keys, source) {
        return native_plan(object, columns, indexes, keys);
    }
    match source {
        None => Err(
            String::from_str(
                "the table's stored definition could not be read, so it cannot be rebuilt",
            ),
        ),
        Some(s) => generate(object, columns, indexes, keys, s),
    }
}

/// Every statement the form's edits call for, on `engine`.
///
/// Postgres and MySQL restate a table in place, so they stay a flat list of
/// statements: the column changes, then the index changes, then the foreign
/// key changes. SQLite does too while its own `ALTER TABLE` will do, and
/// switches to one rebuild as soon as it will not.
pub open spec fn plan_spec(
    engine: Engine,
    object: DatabaseObject,
    columns: Seq<ColumnEdit>,
    indexes: Seq<IndexEdit>,
    keys: Seq<ForeignKeyEdit>,
    source: Option<&RebuildSource>,
) -> Result<SpecChange, Seq<char>> {
    if engine == Engine::Sqlite {
        sqlite_plan_spec(object, columns, indexes, keys, source)
    } else {
        match sql::alter_statements_spec(engine, sql::target_spec(object, engine), columns) {
            Err(e) => Err(e),
            Ok(a) => match sql::index_statements_spec(engine, object, indexes) {
                Err(e) => Err(e),
                Ok(i) => match sql::key_statements_spec(engine, object, keys) {
                    Err(e) => Err(e),
                    Ok(k) => Ok((false, a + i + k)),
                },
            },
        }
    }
}

/// Every statement the form's edits call for, on `engine`.
pub fn plan(
    engine: Engine,
    object: &DatabaseObject,
    columns: &Vec<ColumnEdit>,
    indexes: &Vec<IndexEdit>,
    keys: &Vec<ForeignKeyEdit>,
    source: Option<&RebuildSource>,
) -> (r: Result<Change, String>)
    ensures
        change_is(r, plan_spec(engine, *object, columns@, indexes@, keys@, source)),
{
    if engine == Engine::Sqlite {
        return sqlite_plan(object, columns, indexes, keys, source);
    }
    let target = target(object, engine);
    let mut statements = match generate_alter_statements(engine, target.as_str(), columns) {
        Ok(s) => s,
        Err(e) => {
            return Err(e);
        },
    };
    match generate_index_statements(engine, object, indexes) {
        Ok(more) => push_all(&mut statements, &more),
        Err(e) => {
            return Err(e);
        },
    }
    match generate_foreign_key_statements(engine, object, keys) {
        Ok(more) => push_all(&mut statements, &more),
        Err(e) => {
            return Err(e);
        },
    }
    Ok(Change::Statements(statements))
}

proof fn lemma_idle_native_renames(target: Seq<char>, columns: Seq<ColumnEdit>)
    requires
        forall|k: int| 0 <= k < columns.len() ==> sql::column_idle(#[trigger] columns[k]),
    ensures
        native_renames(target, columns) == Ok::<Seq<Seq<char>>, Seq<char>>(Seq::empty()),
    decreases columns.len(),
{
    if columns.len() > 0 {
        assert(sql::column_idle(columns[columns.len() - 1]));
        lemma_idle_native_renames(target, columns.drop_last());
    }
}

/// A form none of whose rows asks for anything plans no work on any engine:
/// a list of statements, not a rebuild, and an empty one. On SQLite this
/// holds whether or not the table's stored definition could be read.
pub proof fn idle_form_plans_nothing(
    engine: Engine,
    object: DatabaseObject,
    columns: Seq<ColumnEdit>,
    indexes: Seq<IndexEdit>,
    keys: Seq<ForeignKeyEdit>,
    source: Option<&RebuildSource>,
)
    requires
        forall|k: int| 0 <= k < columns.len() ==> sql::column_idle(#[trigger] columns[k]),
        forall|k: int| 0 <= k < indexes.len() ==> sql::index_idle(#[trigger] indexes[k]),
        forall|k: int| 0 <= k < keys.len() ==> !(#[trigger] keys[k]).wants_spec(),
    ensures
        plan_spec(engine, object, columns, indexes, keys, source) == Ok::<SpecChange, Seq<char>>(
            (false, Seq::empty()),
        ),
{
    let empty = Seq::<Seq<char>>::empty();
    sql::idle_columns_generate_nothing(engine, sql::target_spec(object, engine), columns);
    sql::idle_indexes_generate_nothing(engine, object, indexes);
    sql::idle_keys_generate_nothing(engine, object, keys);
    assert(empty + empty + empty =~= empty);
    if engine == Engine::Sqlite {
        let target = sql::target_spec(object, engine);
        sql::idle_columns_generate_nothing(engine, target, columns);
        lemma_idle_native_renames(target, columns);
        assert forall|k: int| 0 <= k < columns.len() implies !(#[trigger] columns[k]).rebuilds_spec() by {
            assert(sql::column_idle(columns[k]));
        }
        assert forall|k: int| 0 <= k < indexes.len() implies !index_rebuilds(
            #[trigger] indexes[k],
            source,
        ) by {
            assert(sql::index_idle(indexes[k]));
        }
        assert(!needs_rebuild_spec(columns, indexes, keys, source));
    }
}

/// What a successful trigger plan holds: one statement per stored trigger,
/// in order, each that trigger's SQL with the renames applied.
proof fn lemma_trigger_plan_ok(
    triggers: Seq<StoredDefinition>,
    dropped: Seq<Seq<char>>,
    renames: Seq<(Seq<char>, Seq<char>)>,
)
    ensures
        trigger_plan(triggers, dropped, renames) matches Ok(out) ==> out.len() == triggers.len()
            && forall|i: int|
            0 <= i < triggers.len() ==> #[trigger] out[i] == sqltext::rewritten(
                triggers[i].sql@,
                renames,
            ),
    decreases triggers.len(),
{
    if triggers.len() > 0 {
        lemma_trigger_plan_ok(triggers.drop_last(), dropped, renames);
        if let Ok(out) = trigger_plan(triggers, dropped, renames) {
            let before = trigger_plan(triggers.drop_last(), dropped, renames)->Ok_0;
            assert(out == before.push(sqltext::rewritten(triggers.last().sql@, renames)));
            assert forall|i: int| 0 <= i < triggers.len() implies #[trigger] out[i]
                == sqltext::rewritten(triggers[i].sql@, renames) by {
                if i < triggers.len() - 1 {
                    assert(out[i] == before[i]);
                    assert(triggers.drop_last()[i] == triggers[i]);
                }
            }
        }
    }
}

/// A rebuild puts each of the table's triggers back with the column
/// renames applied: for every stored trigger, the rebuild runs that
/// trigger's SQL with each renamed column's old name swapped for its new
/// one, so no replayed trigger names a column the new table lacks under
/// its old name.
pub proof fn replayed_triggers_follow_the_renames(
    object: DatabaseObject,
    columns: Seq<ColumnEdit>,
    indexes: Seq<IndexEdit>,
    keys: Seq<ForeignKeyEdit>,
    source: RebuildSource,
)
    ensures
        generate_spec(object, columns, indexes, keys, source) matches Ok((_, statements))
            ==> forall|i: int|
            0 <= i < source.triggers@.len() ==> statements.contains(
                #[trigger] sqltext::rewritten(source.triggers@[i].sql@, rename_map_spec(columns)),
            ),
{
    let renames = rename_map_spec(columns);
    if let Ok((_, statements)) = generate_spec(object, columns, indexes, keys, source) {
        let (definitions, copied, dropped) = column_plan(columns)->Ok_0;
        lemma_trigger_plan_ok(source.triggers@, dropped, renames);
        let triggers = trigger_plan(source.triggers@, dropped, renames)->Ok_0;
        let name = object.name@;
        let table = db::quoted(name, Engine::Sqlite);
        let (recreations, uniques) = index_plan(indexes, source.indexes@, renames, dropped, table)->Ok_0;
        let views: Seq<Seq<char>> = if renames.len() > 0 {
            view_rewrites_spec(source.views@, name, renames)
        } else {
            Seq::empty()
        };
        assert forall|i: int| 0 <= i < source.triggers@.len() implies statements.contains(
            #[trigger] sqltext::rewritten(source.triggers@[i].sql@, renames),
        ) by {
            let prefix_len = statements.len() - triggers.len() - views.len();
            assert(statements[prefix_len + i] == triggers[i]);
        }
    }
}

} // verus!
