//! The logic behind a database client's screens: the DDL its schema editor
//! generates (including SQLite's copy-and-swap table rebuild), the result
//! grid's staged edits and selection, how a grid value is laid out for
//! reading, and the state and words of the editor, tabs, and panels.

pub mod text;
pub mod sqltext;
pub mod db;
pub mod sql;
pub mod rebuild;
pub mod query;
pub mod format;
pub mod clipboard;
pub mod keyed;
pub mod grid;
pub mod filter;
pub mod filter_bar;
pub mod console;
pub mod engine;
pub mod schema_form;
pub mod panels;
pub mod tabs;
pub mod layout;
pub mod switcher;
pub mod editor;
pub mod search;
pub mod import;
pub mod plan;
pub mod schema_editor;
