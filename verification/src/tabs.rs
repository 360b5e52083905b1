//! A session's tabs: query tabs numbered as they are opened, table tabs
//! opened from the sidebar, and which one is in front. A session always
//! shows at least one tab.

use vstd::prelude::*;
use crate::db::{DatabaseObject, ObjectKind};
use crate::text;
use crate::text::{chars_eq, chars_of, decimal_string};

verus! {

/// A table or view as a tab remembers it: schema, name, and kind.
pub type ObjectKey = (Option<Seq<char>>, Seq<char>, ObjectKind);

/// Where a query tab's last run, or its last file operation, stands: what
/// its status bar shows.
#[derive(Clone, Debug)]
pub enum TabStatus {
    Idle,
    Running,
    Done(String),
    Error(String),
}

/// A status as the specification sees it.
pub enum StatusView {
    Idle,
    Running,
    Done(Seq<char>),
    Error(Seq<char>),
}

/// The view of a status.
pub open spec fn status_view(s: TabStatus) -> StatusView {
    match s {
        TabStatus::Idle => StatusView::Idle,
        TabStatus::Running => StatusView::Running,
        TabStatus::Done(m) => StatusView::Done(m@),
        TabStatus::Error(m) => StatusView::Error(m@),
    }
}

/// One tab: its title, the table it shows when it is a table tab, and, for
/// a query tab, its status and the SQL file its buffer belongs to.
#[derive(Clone, Debug)]
pub struct Tab {
    pub title: String,
    /// `None` for a query tab.
    pub object: Option<DatabaseObject>,
    pub status: TabStatus,
    /// The SQL file the buffer was read from or last written to.
    pub file: Option<String>,
}

/// A tab's status and file, as the specification sees them.
pub open spec fn tab_state(t: Tab) -> (StatusView, Option<Seq<char>>) {
    (status_view(t.status), text::opt_view(t.file))
}

/// What saving a tab comes to.
#[derive(Clone, Debug)]
pub enum SaveStep {
    /// A table tab has no buffer: saving writes its staged edits.
    Commit,
    /// Write the buffer to the tab's own file.
    Write(String),
    /// Ask for a path first, offering the tab's file (if any) and title.
    Prompt { file: Option<String>, title: String },
}

/// How a query tab's run ended.
#[derive(Clone, Debug)]
pub enum RunEnd {
    /// It returned; the text summarises the result.
    Finished(String),
    /// The server refused it, with this message.
    Failed(String),
    /// It was given up on before it ended.
    Cancelled,
}

/// The status a run's end leaves its tab in.
pub open spec fn run_end_status(end: RunEnd) -> StatusView {
    match end {
        RunEnd::Finished(summary) => StatusView::Done(summary@),
        RunEnd::Failed(message) => StatusView::Error(message@),
        RunEnd::Cancelled => StatusView::Error("the query was cancelled"@),
    }
}

/// The key of a table or view.
pub open spec fn object_key(o: DatabaseObject) -> ObjectKey {
    (text::opt_view(o.schema), o.name@, o.kind)
}

/// A tab as the specification sees it: its title, and the key of the table
/// it shows, if any.
pub open spec fn tab_view(t: Tab) -> (Seq<char>, Option<ObjectKey>) {
    (
        t.title@,
        match t.object {
            Some(o) => Some(object_key(o)),
            None => None,
        },
    )
}

/// The title an untitled query tab gets: `Query N`, `N` counting every
/// query tab opened so far.
pub open spec fn query_title(n: nat) -> Seq<char> {
    "Query "@ + text::decimal(n)
}

/// Untitled query tabs never share a name: the tab opened as the `n`-th
/// query tab is `Query n`, and different counts give different names. (The
/// count only grows: closing a tab leaves it as it is.)
pub proof fn untitled_names_never_repeat(a: nat, b: nat)
    requires
        a != b,
    ensures
        query_title(a) != query_title(b),
{
    if query_title(a) == query_title(b) {
        let p = "Query "@;
        let ta = query_title(a);
        let tb = query_title(b);
        assert(ta.subrange(p.len() as int, ta.len() as int) =~= text::decimal(a));
        assert(tb.subrange(p.len() as int, tb.len() as int) =~= text::decimal(b));
        text::decimal_is_injective(a, b);
    }
}

/// The tabs of a session and which one is in front.
pub struct Tabs {
    pub tabs: Vec<Tab>,
    pub active: usize,
    /// How many query tabs were ever opened, so closing one never reuses
    /// its number.
    pub opened: usize,
}

impl Tabs {
    /// Whether there is a tab, and the one in front is one of them.
    pub open spec fn wf(&self) -> bool {
        self.tabs@.len() > 0 && self.active < self.tabs@.len()
    }

    /// The tabs as the specification sees them.
    pub open spec fn views(&self) -> Seq<(Seq<char>, Option<ObjectKey>)> {
        self.tabs@.map_values(|t: Tab| tab_view(t))
    }

    /// Each tab's status and file, in tab order.
    pub open spec fn states(&self) -> Seq<(StatusView, Option<Seq<char>>)> {
        self.tabs@.map_values(|t: Tab| tab_state(t))
    }

    /// Whether the tab at `i` is a query tab.
    pub open spec fn is_query(&self, i: int) -> bool {
        0 <= i < self.tabs@.len() && self.tabs@[i].object is None
    }

    /// A session's tabs when it opens: one empty query tab, `Query 1`.
    pub fn new() -> (r: Self)
        ensures
            r.wf(),
            r.views() == seq![(query_title(1), None::<ObjectKey>)],
            r.states() == seq![(StatusView::Idle, None::<Seq<char>>)],
            r.active == 0,
            r.opened == 1,
    {
        let mut r = Tabs { tabs: Vec::new(), active: 0, opened: 0 };
        r.open_query(None);
        proof {
            assert(r.views() =~= seq![(query_title(1), None::<ObjectKey>)]);
            assert(r.states() =~= seq![(StatusView::Idle, None::<Seq<char>>)]);
        }
        r
    }

    /// Add a query tab and put it in front: titled `title`, or `Query N`
    /// with the next number when no title is given.
    pub fn open_query(&mut self, title: Option<String>)
        requires
            old(self).opened < usize::MAX,
        ensures
            final(self).wf(),
            final(self).opened == old(self).opened + 1,
            final(self).views() == old(self).views().push(
                (
                    match title {
                        Some(t) => t@,
                        None => query_title((old(self).opened + 1) as nat),
                    },
                    None::<ObjectKey>,
                ),
            ),
            final(self).states() == old(self).states().push((StatusView::Idle, None::<Seq<char>>)),
            final(self).active == old(self).tabs@.len(),
            final(self).is_query(final(self).active as int),
    {
        self.opened = self.opened + 1;
        let title = match title {
            Some(t) => t,
            None => {
                let mut t = String::from_str("Query ");
                t.append(decimal_string(self.opened as u64).as_str());
                t
            },
        };
        let ghost before = self.views();
        let ghost states = self.states();
        self.tabs.push(Tab { title, object: None, status: TabStatus::Idle, file: None });
        self.active = self.tabs.len() - 1;
        proof {
            assert(self.views() =~= before.push(tab_view(self.tabs@.last())));
            assert(self.states() =~= states.push((StatusView::Idle, None::<Seq<char>>)));
        }
    }

    /// Whether two tables are the same one.
    fn same_object(a: &DatabaseObject, b: &DatabaseObject) -> (r: bool)
        ensures
            r == (object_key(*a) == object_key(*b)),
    {
        let schema = match (&a.schema, &b.schema) {
            (Some(x), Some(y)) => chars_eq(&chars_of(x.as_str()), &chars_of(y.as_str())),
            (None, None) => true,
            _ => false,
        };
        schema && a.kind == b.kind && chars_eq(&chars_of(a.name.as_str()), &chars_of(b.name.as_str()))
    }

    /// The first tab showing `object`, if any.
    pub fn position_of(&self, object: &DatabaseObject) -> (r: Option<usize>)
        ensures
            match r {
                Some(i) => i < self.tabs@.len() && self.views()[i as int].1 == Some(object_key(*object))
                    && forall|j: int| 0 <= j < i ==> (#[trigger] self.views()[j]).1 != Some(object_key(*object)),
                None => forall|j: int| 0 <= j < self.tabs@.len() ==> (#[trigger] self.views()[j]).1 != Some(
                    object_key(*object),
                ),
            },
    {
        let mut i: usize = 0;
        while i < self.tabs.len()
            invariant
                i <= self.tabs@.len(),
                forall|j: int| 0 <= j < i ==> (#[trigger] self.views()[j]).1 != Some(object_key(*object)),
            decreases self.tabs@.len() - i,
        {
            let found = match &self.tabs[i].object {
                Some(o) => Self::same_object(o, object),
                None => false,
            };
            if found {
                return Some(i);
            }
            i = i + 1;
        }
        None
    }

    /// Open a table or view in its own tab, titled `title`, and put it in
    /// front; a table already open is brought forward rather than opened
    /// twice.
    pub fn open_object(&mut self, object: DatabaseObject, title: String)
        requires
            old(self).wf(),
        ensures
            final(self).wf(),
            final(self).opened == old(self).opened,
            (exists|j: int| 0 <= j < old(self).tabs@.len() && (#[trigger] old(self).views()[j]).1 == Some(
                object_key(object),
            )) ==> final(self).tabs == old(self).tabs && final(self).views()[final(self).active as int].1
                == Some(object_key(object)),
            !(exists|j: int| 0 <= j < old(self).tabs@.len() && (#[trigger] old(self).views()[j]).1 == Some(
                object_key(object),
            )) ==> final(self).views() == old(self).views().push((title@, Some(object_key(object))))
                && final(self).states() == old(self).states().push((StatusView::Idle, None::<Seq<char>>))
                && final(self).active == old(self).tabs@.len(),
    {
        match self.position_of(&object) {
            Some(i) => {
                self.activate(i);
            },
            None => {
                let ghost before = self.views();
                let ghost states = self.states();
                let ghost key = object_key(object);
                let ghost t = title@;
                self.tabs.push(Tab { title, object: Some(object), status: TabStatus::Idle, file: None });
                self.active = self.tabs.len() - 1;
                proof {
                    assert(tab_view(self.tabs@.last()) == (t, Some(key)));
                    assert(self.views() =~= before.push((t, Some(key))));
                    assert(self.states() =~= states.push((StatusView::Idle, None::<Seq<char>>)));
                }
            },
        }
    }

    /// Close the tab at `index`. The front position stays where it was,
    /// moved back onto the last tab when it falls past the end: closing a
    /// tab before the one in front brings the tab after it forward. A session
    /// left with none gets a fresh query tab.
    pub fn close(&mut self, index: usize)
        requires
            old(self).wf(),
            old(self).opened < usize::MAX,
        ensures
            final(self).wf(),
            index >= old(self).tabs@.len() ==> final(self).tabs == old(self).tabs && final(self).active
                == old(self).active && final(self).opened == old(self).opened,
            index < old(self).tabs@.len() && old(self).tabs@.len() > 1 ==> final(self).views() == old(
                self,
            ).views().remove(index as int) && final(self).states() == old(self).states().remove(index as int)
                && final(self).opened == old(self).opened && final(self).active == (
            if old(self).active < old(self).tabs@.len() - 1 {
                old(self).active
            } else {
                (old(self).tabs@.len() - 2) as usize
            }),
            index < old(self).tabs@.len() && old(self).tabs@.len() == 1 ==> final(self).views() == seq![
                (query_title((old(self).opened + 1) as nat), None::<ObjectKey>),
            ] && final(self).states() == seq![(StatusView::Idle, None::<Seq<char>>)] && final(self).active
                == 0 && final(self).opened == old(self).opened + 1,
    {
        if index >= self.tabs.len() {
            return;
        }
        let ghost before = self.views();
        let ghost states = self.states();
        self.tabs.remove(index);
        proof {
            assert(self.views() =~= before.remove(index as int));
            assert(self.states() =~= states.remove(index as int));
        }
        if self.tabs.len() == 0 {
            self.open_query(None);
            proof {
                assert(self.views() =~= seq![(query_title((old(self).opened + 1) as nat), None::<ObjectKey>)]);
                assert(self.states() =~= seq![(StatusView::Idle, None::<Seq<char>>)]);
            }
            return;
        }
        if self.active > self.tabs.len() - 1 {
            self.active = self.tabs.len() - 1;
        }
    }

    /// Put the tab at `index` in front, when there is one.
    pub fn activate(&mut self, index: usize)
        requires
            old(self).wf(),
        ensures
            final(self).wf(),
            final(self).tabs == old(self).tabs,
            final(self).opened == old(self).opened,
            final(self).active == (if index < old(self).tabs@.len() {
                index
            } else {
                old(self).active
            }),
    {
        if index < self.tabs.len() && index != self.active {
            self.active = index;
        }
    }

    /// The tab `offset` places after the one in front, counting round.
    pub open spec fn after_active(&self, offset: int) -> int {
        (self.active + offset) % (self.tabs@.len() as int)
    }

    /// The first query tab at least `from` places after the one in front,
    /// counting round.
    pub open spec fn query_from(&self, from: nat) -> Option<int>
        decreases self.tabs@.len() - from,
    {
        if from >= self.tabs@.len() {
            None
        } else if self.tabs@[self.after_active(from as int)].object is None {
            Some(self.after_active(from as int))
        } else {
            self.query_from(from + 1)
        }
    }

    /// The tab in front if it holds a query, else the next one round that
    /// does.
    pub open spec fn nearest_query(&self) -> Option<int> {
        self.query_from(0)
    }

    /// What `query_from` finds is a query tab.
    pub proof fn lemma_query_from(&self, from: nat)
        requires
            self.wf(),
        ensures
            self.query_from(from) matches Some(i) ==> self.is_query(i),
        decreases self.tabs@.len() - from,
    {
        if from < self.tabs@.len() {
            let a = self.active as int;
            let m = self.tabs@.len() as int;
            assert(0 <= (a + from) % m < m) by (nonlinear_arith)
                requires m > 0, a >= 0, from >= 0;
            self.lemma_query_from(from + 1);
        }
    }

    /// The tab in front if it holds a query, else the next one round that
    /// does; `None` when every tab shows a table.
    pub fn nearest_query_tab(&self) -> (r: Option<usize>)
        requires
            self.wf(),
        ensures
            match r {
                Some(i) => self.nearest_query() == Some(i as int),
                None => self.nearest_query() is None,
            },
            match r {
                Some(i) => exists|offset: int|
                    0 <= offset < self.tabs@.len() && i == self.after_active(offset) && self.tabs@[i as int].object
                        is None && forall|o: int| 0 <= o < offset ==> (#[trigger] self.tabs@[self.after_active(o)]).object
                        is Some,
                None => forall|i: int| 0 <= i < self.tabs@.len() ==> (#[trigger] self.tabs@[i]).object is Some,
            },
    {
        let n = self.tabs.len();
        let mut offset: usize = 0;
        while offset < n
            invariant
                self.wf(),
                n == self.tabs@.len(),
                offset <= n,
                forall|o: int| 0 <= o < offset ==> (#[trigger] self.tabs@[self.after_active(o)]).object is Some,
                self.nearest_query() == self.query_from(offset as nat),
            decreases n - offset,
        {
            let index = if self.active < n - offset {
                self.active + offset
            } else {
                self.active - (n - offset)
            };
            proof {
                let a = self.active as int;
                let o = offset as int;
                let m = n as int;
                if a < m - o {
                    assert((a + o) % m == a + o) by (nonlinear_arith)
                        requires 0 <= a + o < m;
                } else {
                    assert((a + o) % m == a + o - m) by (nonlinear_arith)
                        requires m <= a + o < 2 * m;
                }
                assert(index as int == self.after_active(o));
            }
            if self.tabs[index].object.is_none() {
                return Some(index);
            }
            offset = offset + 1;
        }
        proof {
            assert forall|i: int| 0 <= i < self.tabs@.len() implies (#[trigger] self.tabs@[i]).object is Some by {
                let a = self.active as int;
                let m = n as int;
                let o = if i >= a { i - a } else { i + m - a };
                if i >= a {
                    assert((a + o) % m == i) by (nonlinear_arith)
                        requires 0 <= a + o < m, a + o == i;
                } else {
                    assert((a + o) % m == i) by (nonlinear_arith)
                        requires m <= a + o < 2 * m, a + o - m == i;
                }
                assert(self.tabs@[self.after_active(o)].object is Some);
            }
        }
        None
    }

    /// Set the status of the query tab at `index`; a table tab, or an index
    /// past the last tab, is left alone.
    pub fn set_status(&mut self, index: usize, status: TabStatus)
        requires
            old(self).wf(),
        ensures
            final(self).wf(),
            final(self).tabs@.len() == old(self).tabs@.len(),
            forall|i: int| #[trigger] final(self).is_query(i) == old(self).is_query(i),
            final(self).views() == old(self).views(),
            final(self).active == old(self).active,
            final(self).opened == old(self).opened,
            final(self).states() == (if old(self).is_query(index as int) {
                old(self).states().update(
                    index as int,
                    (status_view(status), old(self).states()[index as int].1),
                )
            } else {
                old(self).states()
            }),
    {
        if index < self.tabs.len() && self.tabs[index].object.is_none() {
            let ghost views = self.views();
            let ghost states = self.states();
            let mut tab = self.tabs.remove(index);
            let ghost file = tab.file;
            tab.status = status;
            self.tabs.insert(index, tab);
            proof {
                assert(self.views() =~= views);
                assert(self.states() =~= states.update(
                    index as int,
                    (status_view(status), text::opt_view(file)),
                ));
            }
        }
    }

    /// Bind the query tab at `index` to the file at `path`, naming the tab
    /// `label` (the file's own name); a table tab, or an index past the last
    /// tab, is left alone.
    pub fn set_file(&mut self, index: usize, path: String, label: String)
        requires
            old(self).wf(),
        ensures
            final(self).wf(),
            forall|i: int| #[trigger] final(self).is_query(i) == old(self).is_query(i),
            final(self).active == old(self).active,
            final(self).opened == old(self).opened,
            old(self).is_query(index as int) ==> final(self).views() == old(self).views().update(
                index as int,
                (label@, None::<ObjectKey>),
            ) && final(self).states() == old(self).states().update(
                index as int,
                (old(self).states()[index as int].0, Some(path@)),
            ),
            !old(self).is_query(index as int) ==> final(self).tabs == old(self).tabs,
    {
        if index < self.tabs.len() && self.tabs[index].object.is_none() {
            let ghost views = self.views();
            let ghost states = self.states();
            let mut tab = self.tabs.remove(index);
            let ghost status = tab.status;
            tab.title = label;
            tab.file = Some(path);
            self.tabs.insert(index, tab);
            proof {
                assert(self.views() =~= views.update(index as int, (label@, None::<ObjectKey>)));
                assert(self.states() =~= states.update(
                    index as int,
                    (status_view(status), Some(path@)),
                ));
            }
        }
    }

    /// What saving the tab at `index` comes to: a table tab writes its staged
    /// edits; a query tab with a file writes to it, unless `ask` (Save As)
    /// asks for a path anyway, as does a tab with no file yet. `None` when
    /// there is no such tab.
    pub fn save_step(&self, index: usize, ask: bool) -> (r: Option<SaveStep>)
        ensures
            index >= self.tabs@.len() ==> r is None,
            index < self.tabs@.len() && self.tabs@[index as int].object is Some ==> r matches Some(
                SaveStep::Commit,
            ),
            self.is_query(index as int) ==> match self.tabs@[index as int].file {
                Some(path) if !ask => (r matches Some(SaveStep::Write(p)) && p@ == path@),
                _ => (r matches Some(SaveStep::Prompt { file, title }) && text::opt_view(file)
                    == text::opt_view(self.tabs@[index as int].file) && title@
                    == self.tabs@[index as int].title@),
            },
    {
        if index >= self.tabs.len() {
            return None;
        }
        let tab = &self.tabs[index];
        if tab.object.is_some() {
            return Some(SaveStep::Commit);
        }
        match &tab.file {
            Some(path) => {
                if !ask {
                    return Some(SaveStep::Write(text::copy_string(path)));
                }
                Some(
                    SaveStep::Prompt {
                        file: Some(text::copy_string(path)),
                        title: text::copy_string(&tab.title),
                    },
                )
            },
            None => Some(SaveStep::Prompt { file: None, title: text::copy_string(&tab.title) }),
        }
    }

    /// A run starts in the tab at `index`: a query tab shows that it is
    /// running, and the answer is whether the run goes ahead (a table tab,
    /// or an index past the last tab, runs nothing).
    pub fn begin_run(&mut self, index: usize) -> (r: bool)
        requires
            old(self).wf(),
        ensures
            r == old(self).is_query(index as int),
            final(self).wf(),
            final(self).views() == old(self).views(),
            final(self).active == old(self).active,
            final(self).opened == old(self).opened,
            final(self).states() == (if r {
                old(self).states().update(
                    index as int,
                    (StatusView::Running, old(self).states()[index as int].1),
                )
            } else {
                old(self).states()
            }),
    {
        if index < self.tabs.len() && self.tabs[index].object.is_none() {
            self.set_status(index, TabStatus::Running);
            true
        } else {
            false
        }
    }

    /// A run in the tab at `index` ended: its status shows the result's
    /// summary, the server's message, or that the run was cancelled.
    pub fn finish_run(&mut self, index: usize, end: RunEnd)
        requires
            old(self).wf(),
        ensures
            final(self).wf(),
            final(self).views() == old(self).views(),
            final(self).active == old(self).active,
            final(self).opened == old(self).opened,
            final(self).states() == (if old(self).is_query(index as int) {
                old(self).states().update(
                    index as int,
                    (run_end_status(end), old(self).states()[index as int].1),
                )
            } else {
                old(self).states()
            }),
    {
        let status = match end {
            RunEnd::Finished(summary) => TabStatus::Done(summary),
            RunEnd::Failed(message) => TabStatus::Error(message),
            RunEnd::Cancelled => TabStatus::Error(String::from_str("the query was cancelled")),
        };
        self.set_status(index, status);
    }

    /// Put an error where the user can see it: on the query tab nearest the
    /// one in front, since only query tabs have a status bar. With no query
    /// tab at all, nothing changes.
    pub fn report(&mut self, error: String)
        requires
            old(self).wf(),
        ensures
            final(self).wf(),
            final(self).views() == old(self).views(),
            final(self).active == old(self).active,
            final(self).opened == old(self).opened,
            match old(self).nearest_query(){
                Some(i) => final(self).states() == old(self).states().update(
                    i,
                    (StatusView::Error(error@), old(self).states()[i].1),
                ),
                None => final(self).states() == old(self).states(),
            },
    {
        proof {
            self.lemma_query_from(0);
        }
        match self.nearest_query_tab() {
            Some(index) => {
                self.set_status(index, TabStatus::Error(error));
            },
            None => {},
        }
    }

    /// A SQL file was read: it gets a query tab of its own, in front, named
    /// `label` (the file's name) and bound to `path`, whose status says it
    /// was opened.
    pub fn open_file_tab(&mut self, path: String, label: String)
        requires
            old(self).wf(),
            old(self).opened < usize::MAX,
        ensures
            final(self).wf(),
            final(self).opened == old(self).opened + 1,
            final(self).active == old(self).tabs@.len(),
            final(self).views() == old(self).views().push((label@, None::<ObjectKey>)),
            final(self).states() == old(self).states().push(
                (StatusView::Done("Opened "@ + path@), Some(path@)),
            ),
    {
        let ghost states = self.states();
        self.open_query(None);
        let index = self.active;
        let mut message = String::from_str("Opened ");
        message.append(path.as_str());
        let ghost m = message@;
        let ghost p = path@;
        self.set_status(index, TabStatus::Done(message));
        self.set_file(index, path, label);
        proof {
            assert(self.states() =~= states.push((StatusView::Done(m), Some(p))));
        }
    }

    /// Writing the query tab at `index` to `path` ended: on success its
    /// status says where it was saved and the tab is bound to the file,
    /// named `label`; on failure its status shows the error.
    pub fn file_written(&mut self, index: usize, path: String, label: String, written: Result<(), String>)
        requires
            old(self).wf(),
        ensures
            final(self).wf(),
            final(self).active == old(self).active,
            final(self).opened == old(self).opened,
            !old(self).is_query(index as int) ==> final(self).tabs == old(self).tabs,
            old(self).is_query(index as int) ==> match written {
                Ok(_) => final(self).views() == old(self).views().update(
                    index as int,
                    (label@, None::<ObjectKey>),
                ) && final(self).states() == old(self).states().update(
                    index as int,
                    (StatusView::Done("Saved "@ + path@), Some(path@)),
                ),
                Err(e) => final(self).views() == old(self).views() && final(self).states() == old(
                    self,
                ).states().update(
                    index as int,
                    (StatusView::Error(e@), old(self).states()[index as int].1),
                ),
            },
    {
        if !(index < self.tabs.len() && self.tabs[index].object.is_none()) {
            return;
        }
        match written {
            Ok(_) => {
                let ghost states = self.states();
                let mut message = String::from_str("Saved ");
                message.append(path.as_str());
                let ghost m = message@;
                let ghost p = path@;
                self.set_status(index, TabStatus::Done(message));
                self.set_file(index, path, label);
                proof {
                    assert(self.states() =~= states.update(
                        index as int,
                        (StatusView::Done(m), Some(p)),
                    ));
                }
            },
            Err(e) => {
                self.set_status(index, TabStatus::Error(e));
            },
        }
    }

    /// Another database was opened: every query tab's result belonged to
    /// the old one, so each goes back to idle; table tabs read their table
    /// again on their own.
    pub fn database_switched(&mut self)
        requires
            old(self).wf(),
        ensures
            final(self).wf(),
            final(self).views() == old(self).views(),
            final(self).active == old(self).active,
            final(self).opened == old(self).opened,
            final(self).states().len() == old(self).states().len(),
            forall|i: int|
                0 <= i < old(self).states().len() ==> #[trigger] final(self).states()[i] == (if old(
                    self,
                ).is_query(i) {
                    (StatusView::Idle, old(self).states()[i].1)
                } else {
                    old(self).states()[i]
                }),
    {
        let mut i: usize = 0;
        while i < self.tabs.len()
            invariant
                self.wf(),
                i <= self.tabs@.len(),
                self.views() == old(self).views(),
                self.active == old(self).active,
                self.opened == old(self).opened,
                self.tabs@.len() == old(self).tabs@.len(),
                forall|k: int| #[trigger] self.is_query(k) == old(self).is_query(k),
                forall|k: int|
                    0 <= k < self.tabs@.len() ==> #[trigger] self.states()[k] == (if k < i && old(
                        self,
                    ).is_query(k) {
                        (StatusView::Idle, old(self).states()[k].1)
                    } else {
                        old(self).states()[k]
                    }),
            decreases self.tabs.len() - i,
        {
            self.set_status(i, TabStatus::Idle);
            i = i + 1;
        }
    }

    /// Opening another database failed, or was given up on: the tab in
    /// front says so (when it is a query tab).
    pub fn switch_failed(&mut self, error: Option<String>)
        requires
            old(self).wf(),
        ensures
            final(self).wf(),
            final(self).views() == old(self).views(),
            final(self).active == old(self).active,
            final(self).opened == old(self).opened,
            final(self).states() == (if old(self).is_query(old(self).active as int) {
                old(self).states().update(
                    old(self).active as int,
                    (
                        StatusView::Error(
                            match error {
                                Some(e) => e@,
                                None => "switching database was cancelled"@,
                            },
                        ),
                        old(self).states()[old(self).active as int].1,
                    ),
                )
            } else {
                old(self).states()
            }),
    {
        let message = match error {
            Some(e) => e,
            None => String::from_str("switching database was cancelled"),
        };
        let active = self.active;
        self.set_status(active, TabStatus::Error(message));
    }
}

/// Whether picking `database` opens it: never on a file-based engine, which
/// has only its one database; not while a switch is already under way; and
/// not when it is the database already open.
pub fn wants_switch(file_based: bool, switching: bool, database: &str, current: &str) -> (r: bool)
    ensures
        r == (!file_based && !switching && database@ != current@),
{
    if file_based || switching {
        return false;
    }
    !chars_eq(&chars_of(database), &chars_of(current))
}

/// What the sidebar says after reading the database list and the object
/// list: `None` as a read that was given up on; otherwise the message of
/// each read that failed, the object list's winning when both did.
pub fn metadata_error(loaded: Option<(Option<String>, Option<String>)>) -> (r: Option<String>)
    ensures
        text::opt_view(r) == match loaded {
            None => Some("reading the schema was cancelled"@),
            Some((databases, objects)) => match objects {
                Some(e) => Some(e@),
                None => text::opt_view(databases),
            },
        },
{
    match loaded {
        None => Some(String::from_str("reading the schema was cancelled")),
        Some((databases, objects)) => match objects {
            Some(e) => Some(e),
            None => databases,
        },
    }
}

} // verus!
