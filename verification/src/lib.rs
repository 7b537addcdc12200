//! Sans-I/O core for connecting to an X server through dynamically loaded
//! libraries.
//!
//! The crate decides *which* native call comes next and what its answer
//! means; a driver outside performs the calls and hands the answers back.
//! Every native call is a [`call::Call`] value, every answer one machine
//! word, so the whole protocol can be replayed against a scripted platform.

pub mod call;
pub mod connection;
pub mod laws;
pub mod loader;
