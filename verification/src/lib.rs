//! A daily herald: gathers the observances of a calendar day, asks a
//! text service for a themed narrative, composes one message from both and
//! delivers it to a chat channel that bounds the size of each payload.
//!
//! Everything here is pure: reading the fact store and talking to the two
//! network services is left to the caller, which hands in plain values and
//! performs the actions that this library decides on.

pub mod config;
pub mod models;
pub mod encoding;
pub mod decimal;
pub mod http;
pub mod json;
pub mod database;
pub mod ai;
pub mod chunking;
pub mod delivery;
pub mod discord;
