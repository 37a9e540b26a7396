//! A small banking store: registered users, the accounts they own, and the
//! rules that keep the two consistent.

pub mod account_type;
pub mod console;
pub mod database;
pub mod error;
pub mod records;
pub mod state;
