use zippa_db::db::Engine;
use zippa_db::engine::{logo_path, EngineLogos, MYSQL_LOGO, POSTGRES_LOGO, SQLITE_LOGO};

#[test]
fn each_engine_has_its_own_logo_path() {
    assert_eq!(logo_path(Engine::Postgres), "icons/engines/postgres.svg");
    assert_eq!(logo_path(Engine::MySql), "icons/engines/mysql.svg");
    assert_eq!(logo_path(Engine::Sqlite), "icons/engines/sqlite.svg");
}

#[test]
fn only_the_engine_logos_are_served() {
    assert!(!EngineLogos.serves("icons/table.svg"));
    assert!(EngineLogos.list("icons/engines/").len() == 3);
}

#[test]
fn only_the_engine_logos_are_listed() {
    assert!(EngineLogos.serves(SQLITE_LOGO));
    assert_eq!(
        EngineLogos.list("icons/"),
        vec![POSTGRES_LOGO.to_string(), MYSQL_LOGO.to_string(), SQLITE_LOGO.to_string()]
    );
    assert_eq!(EngineLogos.list("icons/engines/m"), vec![MYSQL_LOGO.to_string()]);
    assert!(EngineLogos.list("fonts/").is_empty());
}

#[test]
fn every_engine_has_an_embedded_logo() {
    for engine in [Engine::Postgres, Engine::MySql, Engine::Sqlite] {
        let path = logo_path(engine);
        assert!(EngineLogos.serves(path), "{path} is not embedded");
        assert!(path.ends_with(".svg"), "{path} should be an SVG");
    }
}
