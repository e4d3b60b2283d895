//! Decisions of a bridge that drives one OMP agent process per conversation thread.

pub mod error;
pub mod function_laws;
pub mod json;
pub mod laws;
pub mod ledger;
pub mod loading;
pub mod names;
pub mod outside;
pub mod path;
pub mod persistence;
pub mod profile;
pub mod profile_laws;
pub mod prompt;
pub mod prompt_laws;
pub mod protocol;
pub mod record_laws;
pub mod run;
pub mod server;
pub mod server_laws;
pub mod session;
pub mod session_laws;
pub mod setup;
pub mod setup_laws;
pub mod text;
pub mod text_laws;
pub mod turn;
pub mod turn_laws;
