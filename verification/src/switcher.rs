//! The quick switcher (`Cmd+K`): which entries it offers, in which groups,
//! and what choosing one does.

use vstd::prelude::*;
use crate::db::{DatabaseObject, ObjectKind};
use crate::tabs::{ObjectKey, object_key};
use crate::text;
use crate::text::{chars_eq, chars_of, copy_string};

verus! {

/// What choosing an entry does.
#[derive(Clone, Debug)]
pub enum SwitcherTarget {
    /// Bring the tab at this index forward.
    Tab(usize),
    /// Open this table or view.
    Object(DatabaseObject),
    NewTab,
    OpenFile,
    Refresh,
    /// Switch the connection to this database.
    SwitchDatabase(String),
}

/// The icon an entry shows.
#[derive(Debug, Clone, Copy, PartialEq, Eq, Structural)]
pub enum SwitcherIcon {
    SquareTerminal,
    Table,
    Eye,
    Plus,
    FolderOpen,
    RefreshCw,
    HardDrive,
}

/// One entry: what it says, its icon, whether it is ticked (the tab in
/// front, the database in use), the words it is also found by, and what
/// choosing it does.
#[derive(Clone, Debug)]
pub struct SwitcherItem {
    pub label: String,
    pub icon: SwitcherIcon,
    pub checked: bool,
    pub keywords: Vec<String>,
    pub target: SwitcherTarget,
}

/// A labelled group of entries.
#[derive(Clone, Debug)]
pub struct SwitcherGroup {
    pub label: String,
    pub items: Vec<SwitcherItem>,
}

/// A tab as the switcher lists it: its title, whether it holds a query, and
/// the file it was opened from, if any.
pub type TabEntry = (String, bool, Option<String>);

/// What choosing an entry does, as the specification sees it.
pub enum TargetView {
    Tab(usize),
    Object(ObjectKey),
    NewTab,
    OpenFile,
    Refresh,
    SwitchDatabase(Seq<char>),
}

/// What choosing an entry does, as text.
pub open spec fn target_view(t: SwitcherTarget) -> TargetView {
    match t {
        SwitcherTarget::Tab(i) => TargetView::Tab(i),
        SwitcherTarget::Object(o) => TargetView::Object(object_key(o)),
        SwitcherTarget::NewTab => TargetView::NewTab,
        SwitcherTarget::OpenFile => TargetView::OpenFile,
        SwitcherTarget::Refresh => TargetView::Refresh,
        SwitcherTarget::SwitchDatabase(d) => TargetView::SwitchDatabase(d@),
    }
}

/// An entry as the specification sees it.
pub type ItemView = (Seq<char>, SwitcherIcon, bool, Seq<Seq<char>>, TargetView);

/// An entry as text.
pub open spec fn item_view(i: SwitcherItem) -> ItemView {
    (i.label@, i.icon, i.checked, text::views(i.keywords@), target_view(i.target))
}

/// A group as text.
pub open spec fn group_view(g: SwitcherGroup) -> (Seq<char>, Seq<ItemView>) {
    (g.label@, g.items@.map_values(|i: SwitcherItem| item_view(i)))
}

/// The entry for the tab at `index`.
pub open spec fn tab_item(tab: (Seq<char>, bool, Option<Seq<char>>), index: usize, active: usize) -> ItemView {
    (
        tab.0,
        if tab.1 {
            SwitcherIcon::SquareTerminal
        } else {
            SwitcherIcon::Table
        },
        index == active,
        seq!["tab"@, if tab.1 {
            "query"@
        } else {
            "table"@
        }, "open"@] + match tab.2 {
            Some(p) => seq![p],
            None => Seq::empty(),
        },
        TargetView::Tab(index),
    )
}

/// The entry for a table or view, shown as `label`.
pub open spec fn object_item(object: DatabaseObject, label: Seq<char>) -> ItemView {
    (
        label,
        if object.kind == ObjectKind::Table {
            SwitcherIcon::Table
        } else {
            SwitcherIcon::Eye
        },
        false,
        seq![if object.kind == ObjectKind::Table {
            "table"@
        } else {
            "view"@
        }, "schema"@, "object"@] + match object.schema {
            Some(s) => seq![s@],
            None => Seq::empty(),
        },
        TargetView::Object(object_key(object)),
    )
}

/// The three actions the switcher always offers.
pub open spec fn action_items() -> Seq<ItemView> {
    seq![
        ("New Query Tab"@, SwitcherIcon::Plus, false, seq!["new"@, "query"@, "tab"@, "sql"@, "editor"@, "create"@], TargetView::NewTab),
        ("Open SQL File..."@, SwitcherIcon::FolderOpen, false, seq!["open"@, "file"@, "sql"@, "load"@, "import"@], TargetView::OpenFile),
        ("Refresh Schema & Tables"@, SwitcherIcon::RefreshCw, false, seq!["refresh"@, "reload"@, "schema"@, "tables"@, "metadata"@], TargetView::Refresh),
    ]
}

/// The entry for switching to database `db`, ticked when it is the one in
/// use.
pub open spec fn database_item(db: Seq<char>, current: Seq<char>) -> ItemView {
    ("Database: "@ + db, SwitcherIcon::HardDrive, db == current, seq!["database"@, "db"@, "switch"@], TargetView::SwitchDatabase(db))
}

/// A tab entry as text.
pub open spec fn tab_entry_view(t: TabEntry) -> (Seq<char>, bool, Option<Seq<char>>) {
    (t.0@, t.1, text::opt_view(t.2))
}

/// The groups the switcher shows, in order: the open tabs (when there are
/// any), the tables and views (when there are any), the actions, and, on an
/// engine with several databases, the databases to switch to.
pub open spec fn groups_spec(
    tabs: Seq<TabEntry>,
    active: usize,
    objects: Seq<(DatabaseObject, String)>,
    databases: Seq<Seq<char>>,
    file_based: bool,
    current: Seq<char>,
) -> Seq<(Seq<char>, Seq<ItemView>)> {
    let tab_group = if tabs.len() > 0 {
        seq![("Open Tabs"@, Seq::new(tabs.len(), |k: int| tab_item(tab_entry_view(tabs[k]), k as usize, active)))]
    } else {
        Seq::empty()
    };
    let object_group = if objects.len() > 0 {
        seq![("Tables & Views"@, Seq::new(objects.len(), |k: int| object_item(objects[k].0, objects[k].1@)))]
    } else {
        Seq::empty()
    };
    let database_group = if !file_based && databases.len() > 1 {
        seq![("Switch Database"@, Seq::new(databases.len(), |k: int| database_item(databases[k], current)))]
    } else {
        Seq::empty()
    };
    tab_group + object_group + seq![("Actions"@, action_items())] + database_group
}

/// `words` as strings.
fn strings(words: &[&str]) -> (r: Vec<String>)
    ensures
        r@.len() == words@.len(),
        forall|i: int| 0 <= i < words@.len() ==> (#[trigger] r@[i])@ == words@[i]@,
{
    let mut out: Vec<String> = Vec::new();
    let mut i: usize = 0;
    while i < words.len()
        invariant
            i <= words@.len(),
            out@.len() == i,
            forall|k: int| 0 <= k < i ==> (#[trigger] out@[k])@ == words@[k]@,
        decreases words@.len() - i,
    {
        out.push(String::from_str(words[i]));
        i = i + 1;
    }
    out
}

/// A fresh copy of a table or view.
fn copy_object(o: &DatabaseObject) -> (r: DatabaseObject)
    ensures
        object_key(r) == object_key(*o),
        r.kind == o.kind,
        text::opt_view(r.schema) == text::opt_view(o.schema),
{
    DatabaseObject {
        schema: match &o.schema {
            Some(s) => Some(copy_string(s)),
            None => None,
        },
        name: copy_string(&o.name),
        kind: o.kind,
    }
}

/// The entry for the tab at `index`.
fn tab_entry(tab: &TabEntry, index: usize, active: usize) -> (r: SwitcherItem)
    ensures
        item_view(r) == tab_item(tab_entry_view(*tab), index, active),
{
    let (title, is_query, path) = tab;
    let kind = if *is_query {
        "query"
    } else {
        "table"
    };
    let mut keywords = strings(&["tab", kind, "open"]);
    proof {
        assert(text::views(keywords@) =~= seq!["tab"@, kind@, "open"@]);
    }
    match path {
        Some(p) => {
            keywords.push(copy_string(p));
        },
        None => {},
    }
    proof {
        assert(text::views(keywords@) =~= tab_item(tab_entry_view(*tab), index, active).3);
    }
    SwitcherItem {
        label: copy_string(title),
        icon: if *is_query {
            SwitcherIcon::SquareTerminal
        } else {
            SwitcherIcon::Table
        },
        checked: index == active,
        keywords,
        target: SwitcherTarget::Tab(index),
    }
}

/// The entry for a table or view.
fn object_entry(object: &DatabaseObject, label: &String) -> (r: SwitcherItem)
    ensures
        item_view(r) == object_item(*object, label@),
{
    let table = object.kind == ObjectKind::Table;
    let kind = if table {
        "table"
    } else {
        "view"
    };
    let mut keywords = strings(&[kind, "schema", "object"]);
    proof {
        assert(text::views(keywords@) =~= seq![kind@, "schema"@, "object"@]);
    }
    match &object.schema {
        Some(s) => {
            keywords.push(copy_string(s));
        },
        None => {},
    }
    proof {
        assert(text::views(keywords@) =~= object_item(*object, label@).3);
    }
    SwitcherItem {
        label: copy_string(label),
        icon: if table {
            SwitcherIcon::Table
        } else {
            SwitcherIcon::Eye
        },
        checked: false,
        keywords,
        target: SwitcherTarget::Object(copy_object(object)),
    }
}

/// The entry for switching to database `db`.
fn database_entry(db: &String, current: &str) -> (r: SwitcherItem)
    ensures
        item_view(r) == database_item(db@, current@),
{
    let mut label = String::from_str("Database: ");
    label.append(db.as_str());
    let keywords = strings(&["database", "db", "switch"]);
    proof {
        assert(text::views(keywords@) =~= seq!["database"@, "db"@, "switch"@]);
    }
    SwitcherItem {
        label,
        icon: SwitcherIcon::HardDrive,
        checked: chars_eq(&chars_of(db.as_str()), &chars_of(current)),
        keywords,
        target: SwitcherTarget::SwitchDatabase(copy_string(db)),
    }
}

/// The three actions the switcher always offers.
fn actions() -> (r: Vec<SwitcherItem>)
    ensures
        r@.map_values(|i: SwitcherItem| item_view(i)) == action_items(),
{
    let first = strings(&["new", "query", "tab", "sql", "editor", "create"]);
    let second = strings(&["open", "file", "sql", "load", "import"]);
    let third = strings(&["refresh", "reload", "schema", "tables", "metadata"]);
    proof {
        assert(text::views(first@) =~= seq!["new"@, "query"@, "tab"@, "sql"@, "editor"@, "create"@]);
        assert(text::views(second@) =~= seq!["open"@, "file"@, "sql"@, "load"@, "import"@]);
        assert(text::views(third@) =~= seq!["refresh"@, "reload"@, "schema"@, "tables"@, "metadata"@]);
    }
    let mut out: Vec<SwitcherItem> = Vec::new();
    out.push(
        SwitcherItem {
            label: String::from_str("New Query Tab"),
            icon: SwitcherIcon::Plus,
            checked: false,
            keywords: first,
            target: SwitcherTarget::NewTab,
        },
    );
    out.push(
        SwitcherItem {
            label: String::from_str("Open SQL File..."),
            icon: SwitcherIcon::FolderOpen,
            checked: false,
            keywords: second,
            target: SwitcherTarget::OpenFile,
        },
    );
    out.push(
        SwitcherItem {
            label: String::from_str("Refresh Schema & Tables"),
            icon: SwitcherIcon::RefreshCw,
            checked: false,
            keywords: third,
            target: SwitcherTarget::Refresh,
        },
    );
    proof {
        assert(out@.map_values(|i: SwitcherItem| item_view(i)) =~= action_items());
    }
    out
}

/// The groups the switcher shows: the open tabs, the tables and views (each
/// with the label it is listed under), the actions, and, on an engine with
/// several databases, the databases to switch to.
pub fn entries(
    tabs: &Vec<TabEntry>,
    active: usize,
    objects: &Vec<(DatabaseObject, String)>,
    databases: &Vec<String>,
    file_based: bool,
    current: &str,
) -> (r: Vec<SwitcherGroup>)
    ensures
        r@.map_values(|g: SwitcherGroup| group_view(g)) == groups_spec(
            tabs@,
            active,
            objects@,
            text::views(databases@),
            file_based,
            current@,
        ),
{
    let mut groups: Vec<SwitcherGroup> = Vec::new();
    let ghost mut expected: Seq<(Seq<char>, Seq<ItemView>)> = Seq::empty();
    if tabs.len() > 0 {
        let mut items: Vec<SwitcherItem> = Vec::new();
        let mut k: usize = 0;
        while k < tabs.len()
            invariant
                k <= tabs@.len(),
                items@.len() == k,
                forall|j: int| 0 <= j < k ==> item_view(#[trigger] items@[j]) == tab_item(
                    tab_entry_view(tabs@[j]),
                    j as usize,
                    active,
                ),
            decreases tabs@.len() - k,
        {
            items.push(tab_entry(&tabs[k], k, active));
            k = k + 1;
        }
        let ghost iv = items@.map_values(|i: SwitcherItem| item_view(i));
        proof {
            assert(iv =~= Seq::new(tabs@.len(), |j: int| tab_item(tab_entry_view(tabs@[j]), j as usize, active)));
        }
        groups.push(SwitcherGroup { label: String::from_str("Open Tabs"), items });
        proof {
            expected = seq![("Open Tabs"@, iv)];
            assert(groups@.map_values(|g: SwitcherGroup| group_view(g)) =~= expected);
        }
    }
    if objects.len() > 0 {
        let mut items: Vec<SwitcherItem> = Vec::new();
        let mut k: usize = 0;
        while k < objects.len()
            invariant
                k <= objects@.len(),
                items@.len() == k,
                forall|j: int| 0 <= j < k ==> item_view(#[trigger] items@[j]) == object_item(
                    objects@[j].0,
                    objects@[j].1@,
                ),
            decreases objects@.len() - k,
        {
            let (object, label) = &objects[k];
            items.push(object_entry(object, label));
            k = k + 1;
        }
        let ghost iv = items@.map_values(|i: SwitcherItem| item_view(i));
        proof {
            assert(iv =~= Seq::new(objects@.len(), |j: int| object_item(objects@[j].0, objects@[j].1@)));
        }
        let ghost before = groups@.map_values(|g: SwitcherGroup| group_view(g));
        groups.push(SwitcherGroup { label: String::from_str("Tables & Views"), items });
        proof {
            assert(groups@.map_values(|g: SwitcherGroup| group_view(g)) =~= before.push(("Tables & Views"@, iv)));
            expected = expected + seq![("Tables & Views"@, iv)];
        }
    }
    let ghost before = groups@.map_values(|g: SwitcherGroup| group_view(g));
    groups.push(SwitcherGroup { label: String::from_str("Actions"), items: actions() });
    proof {
        assert(groups@.map_values(|g: SwitcherGroup| group_view(g)) =~= before.push(("Actions"@, action_items())));
        expected = expected + seq![("Actions"@, action_items())];
    }
    if !file_based && databases.len() > 1 {
        let mut items: Vec<SwitcherItem> = Vec::new();
        let mut k: usize = 0;
        while k < databases.len()
            invariant
                k <= databases@.len(),
                items@.len() == k,
                forall|j: int| 0 <= j < k ==> item_view(#[trigger] items@[j]) == database_item(
                    databases@[j]@,
                    current@,
                ),
            decreases databases@.len() - k,
        {
            items.push(database_entry(&databases[k], current));
            k = k + 1;
        }
        let ghost iv = items@.map_values(|i: SwitcherItem| item_view(i));
        proof {
            assert(iv =~= Seq::new(databases@.len(), |j: int| database_item(text::views(databases@)[j], current@)));
        }
        let ghost before = groups@.map_values(|g: SwitcherGroup| group_view(g));
        groups.push(SwitcherGroup { label: String::from_str("Switch Database"), items });
        proof {
            assert(groups@.map_values(|g: SwitcherGroup| group_view(g)) =~= before.push(("Switch Database"@, iv)));
            expected = expected + seq![("Switch Database"@, iv)];
        }
    }
    proof {
        assert(expected =~= groups_spec(tabs@, active, objects@, text::views(databases@), file_based, current@));
    }
    groups
}

/// On an engine with several databases, the switcher's last group lists
/// every database in order, each entry labelled with its database's name,
/// checked only for the database in use, and switching to that very
/// database when chosen.
pub proof fn each_database_entry_switches_to_its_own_database(
    tabs: Seq<TabEntry>,
    active: usize,
    objects: Seq<(DatabaseObject, String)>,
    databases: Seq<Seq<char>>,
    current: Seq<char>,
)
    requires
        databases.len() > 1,
    ensures
        ({
            let groups = groups_spec(tabs, active, objects, databases, false, current);
            let last = groups.last();
            &&& groups.len() > 0
            &&& last.0 == "Switch Database"@
            &&& last.1.len() == databases.len()
            &&& forall|k: int|
                0 <= k < databases.len() ==> {
                    let item = #[trigger] last.1[k];
                    &&& item.0 == "Database: "@ + databases[k]
                    &&& item.4 == TargetView::SwitchDatabase(databases[k])
                    &&& item.2 == (databases[k] == current)
                }
        }),
{
}

} // verus!
