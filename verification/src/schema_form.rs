//! The schema editor's form: what its rows become for the statement
//! generator, whether it holds any change at all, and the small edits its
//! pickers make.

use vstd::prelude::*;
use crate::db::{ColumnDef, DatabaseObject, ForeignKeyDef, IndexDef, ObjectKind, ReferentialAction};
use crate::rebuild;
use crate::sql::{ColumnEdit, ForeignKeyEdit, IndexEdit};
use crate::sql;
use crate::text;
use crate::text::{chars_eq, chars_of, copy_string, is_blank, trimmed};

verus! {

/// The fixed set of `ON DELETE` / `ON UPDATE` choices, for the action
/// dropdowns.
pub fn referential_actions() -> (r: [ReferentialAction; 5])
    ensures
        r@ == seq![
            ReferentialAction::NoAction,
            ReferentialAction::Restrict,
            ReferentialAction::Cascade,
            ReferentialAction::SetNull,
            ReferentialAction::SetDefault,
        ],
{
    let r = [
        ReferentialAction::NoAction,
        ReferentialAction::Restrict,
        ReferentialAction::Cascade,
        ReferentialAction::SetNull,
        ReferentialAction::SetDefault,
    ];
    assert(r@ =~= seq![
        ReferentialAction::NoAction,
        ReferentialAction::Restrict,
        ReferentialAction::Cascade,
        ReferentialAction::SetNull,
        ReferentialAction::SetDefault,
    ]);
    r
}

/// A typed default as the generator takes it: trimmed, and absent when
/// nothing is left.
pub open spec fn default_of(text: Seq<char>) -> Option<Seq<char>> {
    if text::trim(text).len() == 0 {
        None
    } else {
        Some(text::trim(text))
    }
}

/// A column row as the generator takes it: its name and default as typed,
/// trimmed; a default left empty is no default.
pub fn column_edit(
    original: Option<ColumnDef>,
    name: &str,
    data_type: String,
    nullable: bool,
    default: &str,
    dropped: bool,
) -> (r: ColumnEdit)
    ensures
        r.original == original,
        r.name@ == text::trim(name@),
        r.data_type@ == data_type@,
        r.nullable == nullable,
        text::opt_view(r.default) == default_of(default@),
        r.dropped == dropped,
{
    let default = trimmed(default);
    let default = if default.as_str().is_empty() {
        None
    } else {
        Some(default)
    };
    ColumnEdit { original, name: trimmed(name), data_type, nullable, default, dropped }
}

/// An index row as the generator takes it: its name as typed, trimmed.
pub fn index_edit(
    original: Option<IndexDef>,
    name: &str,
    columns: Vec<String>,
    unique: bool,
    primary_key: bool,
    dropped: bool,
) -> (r: IndexEdit)
    ensures
        r.original == original,
        r.name@ == text::trim(name@),
        r.columns == columns,
        r.unique == unique,
        r.primary_key == primary_key,
        r.dropped == dropped,
{
    IndexEdit { original, name: trimmed(name), columns, unique, primary_key, dropped }
}

/// A foreign key row as the generator takes it: its name as typed, trimmed,
/// and the referenced table split into its schema and name; no table
/// picked yet is an empty name.
pub fn foreign_key_edit(
    original: Option<ForeignKeyDef>,
    name: &str,
    columns: Vec<String>,
    referenced_table: Option<&DatabaseObject>,
    referenced_columns: Vec<String>,
    on_delete: ReferentialAction,
    on_update: ReferentialAction,
    dropped: bool,
) -> (r: ForeignKeyEdit)
    ensures
        r.original == original,
        r.name@ == text::trim(name@),
        r.columns == columns,
        text::opt_view(r.referenced_schema) == match referenced_table {
            Some(t) => text::opt_view(t.schema),
            None => None,
        },
        r.referenced_table@ == match referenced_table {
            Some(t) => t.name@,
            None => Seq::empty(),
        },
        r.referenced_columns == referenced_columns,
        r.on_delete == on_delete,
        r.on_update == on_update,
        r.dropped == dropped,
{
    let (referenced_schema, table) = match referenced_table {
        Some(t) => (
            match &t.schema {
                Some(s) => Some(copy_string(s)),
                None => None,
            },
            copy_string(&t.name),
        ),
        None => (None, String::new()),
    };
    ForeignKeyEdit {
        original,
        name: trimmed(name),
        columns,
        referenced_schema,
        referenced_table: table,
        referenced_columns,
        on_delete,
        on_update,
        dropped,
    }
}

/// Whether a column row holds a change: an existing column changed or
/// marked to drop, or a new one with a name.
pub open spec fn column_changes(edit: ColumnEdit) -> bool {
    edit.changed_spec() || edit.dropped || (edit.new_spec() && !text::blank(edit.name@))
}

/// Whether an index row holds a change: one marked to drop, or a new one
/// with columns and a name.
pub open spec fn index_changes(edit: IndexEdit) -> bool {
    edit.dropped || (edit.new_spec() && edit.columns@.len() > 0 && !text::blank(edit.name@))
}

/// Whether a foreign key row holds a change: one marked to drop, or a new
/// one with columns, a table, and referenced columns.
pub open spec fn key_changes(edit: ForeignKeyEdit) -> bool {
    edit.dropped || (edit.new_spec() && edit.columns@.len() > 0 && !text::blank(
        edit.referenced_table@,
    ) && edit.referenced_columns@.len() > 0)
}

/// Whether the form holds any change at all.
pub open spec fn form_changes(
    columns: Seq<ColumnEdit>,
    indexes: Seq<IndexEdit>,
    keys: Seq<ForeignKeyEdit>,
) -> bool {
    (exists|i: int| 0 <= i < columns.len() && column_changes(#[trigger] columns[i])) || (exists|
        i: int,
    | 0 <= i < indexes.len() && index_changes(#[trigger] indexes[i])) || (exists|i: int|
        0 <= i < keys.len() && key_changes(#[trigger] keys[i]))
}

/// Whether the form holds any change, for the Preview and Apply buttons.
pub fn has_changes(
    columns: &Vec<ColumnEdit>,
    indexes: &Vec<IndexEdit>,
    keys: &Vec<ForeignKeyEdit>,
) -> (r: bool)
    ensures
        r == form_changes(columns@, indexes@, keys@),
{
    let mut i: usize = 0;
    while i < columns.len()
        invariant
            i <= columns@.len(),
            forall|j: int| 0 <= j < i ==> !column_changes(#[trigger] columns@[j]),
        decreases columns@.len() - i,
    {
        let edit = &columns[i];
        if edit.changed() || edit.dropped || (edit.is_new() && !is_blank(edit.name.as_str())) {
            assert(column_changes(columns@[i as int]));
            return true;
        }
        i = i + 1;
    }
    let mut i: usize = 0;
    while i < indexes.len()
        invariant
            i <= indexes@.len(),
            forall|j: int| 0 <= j < i ==> !index_changes(#[trigger] indexes@[j]),
        decreases indexes@.len() - i,
    {
        let edit = &indexes[i];
        if edit.dropped || (edit.is_new() && edit.columns.len() > 0 && !is_blank(edit.name.as_str())) {
            assert(index_changes(indexes@[i as int]));
            return true;
        }
        i = i + 1;
    }
    let mut i: usize = 0;
    while i < keys.len()
        invariant
            i <= keys@.len(),
            forall|j: int| 0 <= j < i ==> !key_changes(#[trigger] keys@[j]),
        decreases keys@.len() - i,
    {
        let edit = &keys[i];
        if edit.dropped || (edit.is_new() && edit.columns.len() > 0 && !is_blank(
            edit.referenced_table.as_str(),
        ) && edit.referenced_columns.len() > 0) {
            assert(key_changes(keys@[i as int]));
            return true;
        }
        i = i + 1;
    }
    false
}

/// Whether the table keeps a primary key from the server that is not marked
/// to drop: a table has only one, so a second cannot be added.
pub fn has_existing_primary_key(indexes: &Vec<IndexEdit>) -> (r: bool)
    ensures
        r == exists|i: int| 0 <= i < indexes@.len() && rebuild::keeps_key(#[trigger] indexes@[i]),
{
    let mut i: usize = 0;
    while i < indexes.len()
        invariant
            i <= indexes@.len(),
            forall|j: int| 0 <= j < i ==> !rebuild::keeps_key(#[trigger] indexes@[j]),
        decreases indexes@.len() - i,
    {
        match &indexes[i].original {
            Some(o) => {
                if o.is_primary_key && !indexes[i].dropped {
                    assert(rebuild::keeps_key(indexes@[i as int]));
                    return true;
                }
            },
            None => {},
        }
        i = i + 1;
    }
    false
}

/// Why the form cannot be edited, for its footer: a read-only connection,
/// or a view, which has no columns of its own to change.
pub fn read_only_reason(read_only: bool, kind: ObjectKind) -> (r: Option<&'static str>)
    ensures
        match r {
            Some(t) => (read_only && t@ == "this connection is read-only"@) || (!read_only && kind
                == ObjectKind::View && t@ == "a view has no columns of its own to change"@),
            None => !read_only && kind == ObjectKind::Table,
        },
{
    if read_only {
        return Some("this connection is read-only");
    }
    if kind == ObjectKind::View {
        return Some("a view has no columns of its own to change");
    }
    None
}

/// `picked` with `column` taken in (at the end, when it is not there yet)
/// or taken out (every copy), keeping the order the rest were picked in.
pub open spec fn toggled(picked: Seq<Seq<char>>, column: Seq<char>, included: bool) -> Seq<Seq<char>> {
    if included {
        if picked.contains(column) {
            picked
        } else {
            picked.push(column)
        }
    } else {
        picked.filter(|c: Seq<char>| c != column)
    }
}

/// Take `column` into a picked list or out of it, keeping the order the
/// others were picked in: for a composite index or key, that order is the
/// one it searches by.
pub fn toggle_column(picked: &mut Vec<String>, column: String, included: bool)
    ensures
        text::views(final(picked)@) == toggled(text::views(old(picked)@), column@, included),
{
    let ghost before = text::views(picked@);
    assert(before == text::views(old(picked)@));
    let wanted = chars_of(column.as_str());
    if included {
        let mut i: usize = 0;
        while i < picked.len()
            invariant
                wanted@ == column@,
                before == text::views(picked@),
                before == text::views(old(picked)@),
                included,
                i <= picked@.len(),
                forall|j: int| 0 <= j < i ==> #[trigger] picked@[j]@ != column@,
            decreases picked@.len() - i,
        {
            if chars_eq(&chars_of(picked[i].as_str()), &wanted) {
                assert(before[i as int] == column@);
                assert(before.contains(column@));
                assert(toggled(before, column@, included) == before);
                assert(text::views(picked@) == before);
                assert(before == text::views(old(picked)@));
                return;
            }
            i = i + 1;
        }
        assert(!before.contains(column@)) by {
            if before.contains(column@) {
                let j = choose|j: int| 0 <= j < before.len() && before[j] == column@;
                assert(picked@[j]@ == column@);
            }
        }
        picked.push(column);
        assert(text::views(picked@) =~= before.push(column@));
    } else {
        let mut kept: Vec<String> = Vec::new();
        let mut i: usize = 0;
        proof {
            reveal(Seq::filter);
            assert(before.take(0).filter(|c: Seq<char>| c != column@) =~= Seq::<Seq<char>>::empty());
        }
        while i < picked.len()
            invariant
                wanted@ == column@,
                before == text::views(picked@),
                i <= picked@.len(),
                text::views(kept@) == before.take(i as int).filter(|c: Seq<char>| c != column@),
            decreases picked@.len() - i,
        {
            proof {
                reveal(Seq::filter);
                assert(before.take(i + 1).drop_last() =~= before.take(i as int));
            }
            let ghost prev = text::views(kept@);
            if !chars_eq(&chars_of(picked[i].as_str()), &wanted) {
                kept.push(copy_string(&picked[i]));
                assert(text::views(kept@) =~= prev.push(before[i as int]));
            }
            i = i + 1;
        }
        assert(before.take(picked@.len() as int) =~= before);
        *picked = kept;
    }
}

/// A form that reports no change plans no work, on any engine, provided no
/// new index row has columns picked but no name yet (which the generator
/// would refuse or, for a primary key, still act on).
pub proof fn unchanged_form_plans_nothing(
    engine: crate::db::Engine,
    object: DatabaseObject,
    columns: Seq<ColumnEdit>,
    indexes: Seq<IndexEdit>,
    keys: Seq<ForeignKeyEdit>,
    source: Option<&crate::db::RebuildSource>,
)
    requires
        !form_changes(columns, indexes, keys),
        forall|i: int|
            0 <= i < indexes.len() ==> !((#[trigger] indexes[i]).new_spec() && indexes[i].columns@.len()
                > 0 && text::blank(indexes[i].name@)),
    ensures
        rebuild::plan_spec(engine, object, columns, indexes, keys, source) == Ok::<
            rebuild::SpecChange,
            Seq<char>,
        >((false, Seq::empty())),
{
    assert forall|k: int| 0 <= k < columns.len() implies sql::column_idle(#[trigger] columns[k]) by {
        assert(!column_changes(columns[k]));
    }
    assert forall|k: int| 0 <= k < indexes.len() implies sql::index_idle(#[trigger] indexes[k]) by {
        assert(!index_changes(indexes[k]));
    }
    assert forall|k: int| 0 <= k < keys.len() implies !(#[trigger] keys[k]).wants_spec() by {
        assert(!key_changes(keys[k]));
    }
    rebuild::idle_form_plans_nothing(engine, object, columns, indexes, keys, source);
}

} // verus!
