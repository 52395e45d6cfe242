//! The verified core of a relay panel and its nodes.
//!
//! The library decides: which statements go to the database, what a purchase or an upgrade does
//! next, and what is answered. Its callers perform the actions that it names.

pub mod access_laws;
pub mod authorization;
pub mod authorization_laws;
pub mod database_step_laws;
pub mod db;
pub mod digest;
pub mod digest_laws;
pub mod group_update;
pub mod group_update_laws;
pub mod link_update;
pub mod link_update_laws;
pub mod semver;
pub mod shop;
pub mod shop_laws;
pub mod shop_step_laws;
pub mod sql;
pub mod statement_laws;
pub mod statement_texts;
pub mod table_laws;
pub mod tables;
pub mod text;
pub mod updater;
pub mod upgrade_laws;
pub mod upgrade_step_laws;
pub mod user_groups;
pub mod view_laws;
