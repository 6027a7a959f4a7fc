//! The JSON shutdown request and its success reply.
use vstd::prelude::*;

verus! {

/// A request to shut down the game server of happening `id`.
#[derive(Debug)]
pub struct Shutdown {
    pub action: String,
    pub id: usize,
}

/// The reply to a carried-out shutdown request.
#[derive(Debug)]
pub struct ShutdownSuccess {
    pub status: String,
}

} // verus!
