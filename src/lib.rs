pub mod actions;
pub mod app;
pub mod cell;
pub mod commit;
pub mod config;
pub mod diff;
pub mod grid;
pub mod lint;
pub mod llm;
pub mod history;
pub mod model;
pub mod modes;
pub mod output;
pub mod parser;
pub mod project;
pub mod script;
pub mod terminal;
pub mod text;
pub mod version;
