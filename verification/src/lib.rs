use vstd::prelude::*;

pub mod json;
pub mod text;
pub mod keyed;
pub mod fresh;
pub mod config;
pub mod store;
pub mod storage;
pub mod compute;
pub mod network;
pub mod reply;
pub mod requests;
pub mod dataplane;
pub mod credentials;
pub mod client;
pub mod laws;

verus! {
} // verus!
