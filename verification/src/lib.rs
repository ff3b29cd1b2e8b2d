//! A proxy for the skkserv dictionary protocol: request parsing, response
//! framing, okuri-ari stem recovery and candidate ranking.
use vstd::prelude::*;

pub mod alias;
pub mod backend;
pub mod bayesian;
pub mod config;
pub mod dict_import;
pub mod encoding;
pub mod frequency;
pub mod okuri;
pub mod protocol;
pub mod ranking;
pub mod session;
pub mod strmap;
pub mod text;

verus! {

} // verus!
