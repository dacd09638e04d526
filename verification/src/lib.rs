//! A client library for the Serveradmin inventory service: filter
//! expressions, tracked attribute edits, and signed requests.

use vstd::prelude::*;

pub mod api;
pub mod auth;
pub mod cli;
pub mod commit;
pub mod config;
pub mod error;
pub mod filter;
pub mod name_map;
pub mod new_object;
pub mod query;
pub mod ssh;
pub mod text;
pub mod value;
pub mod wire;

verus! {

/// The version of the service's interface that the library speaks.
pub const API_VERSION: &'static str = "4.9.0";

} // verus!
