//! The JSON start request and its success reply.
use vstd::prelude::*;

verus! {

/// A request to start a game server for happening `id` on `map_name`.
#[derive(Debug)]
pub struct Start {
    pub action: String,
    pub map_name: String,
    pub id: usize,
}

/// The reply to a carried-out start request.
#[derive(Debug)]
pub struct StartSuccess {
    pub status: String,
    pub password: String,
    pub port: u32,
}

} // verus!
