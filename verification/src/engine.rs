//! The brand mark shown for each database engine: where its logo is served
//! from, and which paths the logo source answers for.

use vstd::prelude::*;
use crate::db::Engine;
use crate::format::{begins_with, starts_with};
use crate::text::chars_of;

verus! {

/// Where PostgreSQL's logo is served.
pub const POSTGRES_LOGO: &'static str = "icons/engines/postgres.svg";

/// Where MySQL's logo is served.
pub const MYSQL_LOGO: &'static str = "icons/engines/mysql.svg";

/// Where SQLite's logo is served.
pub const SQLITE_LOGO: &'static str = "icons/engines/sqlite.svg";

/// The paths the logos are served at, in engine order.
pub open spec fn logo_paths() -> Seq<Seq<char>> {
    seq![POSTGRES_LOGO@, MYSQL_LOGO@, SQLITE_LOGO@]
}

/// The asset path an engine's logo is served at.
pub fn logo_path(engine: Engine) -> (r: &'static str)
    ensures
        r@ == match engine {
            Engine::Postgres => POSTGRES_LOGO@,
            Engine::MySql => MYSQL_LOGO@,
            Engine::Sqlite => SQLITE_LOGO@,
        },
{
    match engine {
        Engine::Postgres => POSTGRES_LOGO,
        Engine::MySql => MYSQL_LOGO,
        Engine::Sqlite => SQLITE_LOGO,
    }
}

/// The engine logos, served at the paths [`logo_path`] gives.
#[derive(Clone, Copy, Default)]
pub struct EngineLogos;

/// The logo paths under `prefix`, in engine order.
pub open spec fn listed(prefix: Seq<char>) -> Seq<Seq<char>> {
    logo_paths().filter(|p: Seq<char>| starts_with(p, prefix))
}

impl EngineLogos {
    /// The logo paths that start with `path`, in engine order: what a listing
    /// of an asset folder finds here.
    pub fn list(&self, path: &str) -> (r: Vec<String>)
        ensures
            crate::text::views(r@) == listed(path@),
    {
        let mut out: Vec<String> = Vec::new();
        let all = [POSTGRES_LOGO, MYSQL_LOGO, SQLITE_LOGO];
        let ghost paths = logo_paths();
        let mut i: usize = 0;
        proof {
            reveal(Seq::filter);
            assert(paths.take(0).filter(|p: Seq<char>| starts_with(p, path@)) =~= Seq::<Seq<char>>::empty());
        }
        while i < 3
            invariant
                i <= 3,
                paths == logo_paths(),
                all@.map_values(|s: &str| s@) == paths,
                crate::text::views(out@) == paths.take(i as int).filter(|p: Seq<char>| starts_with(p, path@)),
            decreases 3 - i,
        {
            let candidate = all[i];
            proof {
                assert(paths.take(i + 1).drop_last() =~= paths.take(i as int));
                assert(candidate@ == paths[i as int]);
                reveal(Seq::filter);
            }
            let ghost before = crate::text::views(out@);
            if begins_with(&chars_of(candidate), path) {
                out.push(String::from_str(candidate));
                proof {
                    assert(crate::text::views(out@) =~= before.push(candidate@));
                }
            }
            i = i + 1;
        }
        proof {
            assert(paths.take(3) =~= paths);
        }
        out
    }

    /// Whether a logo is served at `path`.
    pub fn serves(&self, path: &str) -> (r: bool)
        ensures
            r == logo_paths().contains(path@),
    {
        let wanted = chars_of(path);
        let all = [POSTGRES_LOGO, MYSQL_LOGO, SQLITE_LOGO];
        let ghost paths = logo_paths();
        let mut i: usize = 0;
        while i < 3
            invariant
                i <= 3,
                paths == logo_paths(),
                wanted@ == path@,
                all@.map_values(|s: &str| s@) == paths,
                forall|j: int| 0 <= j < i ==> #[trigger] paths[j] != path@,
            decreases 3 - i,
        {
            let candidate = all[i];
            proof {
                assert(candidate@ == paths[i as int]);
            }
            if crate::text::chars_eq(&chars_of(candidate), &wanted) {
                return true;
            }
            i = i + 1;
        }
        false
    }
}

} // verus!
