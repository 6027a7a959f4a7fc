//! Bookkeeping of directly launched game servers: which process runs the
//! server of each identifier.
use std::collections::HashMap;
use vstd::prelude::*;
use vstd::string::StringExecFns;

use crate::errors::Errors;
use crate::random::{generate_password_string, is_password, random_in};
use crate::text::{decimal, push_decimal};

verus! {

broadcast use vstd::std_specs::hash::group_hash_axioms;

/// The first port handed to directly launched servers.
pub const DIRECT_PORTS_START: u32 = 1000;

/// The last port handed to directly launched servers.
pub const DIRECT_PORTS_LAST: u32 = 9999;

/// Everything decided before a server is launched directly.
#[derive(Debug)]
pub struct LaunchPlan {
    pub port: u32,
    pub password: String,
    pub server_string: String,
}

/// The settings line of a directly launched server.
pub open spec fn launch_line(port: u32, password: Seq<char>, map_name: Seq<char>) -> Seq<char> {
    "sv_port "@ + decimal(port as nat) + "; password "@ + password + "; sv_map "@ + map_name
}

/// A port drawn at random out of `DIRECT_PORTS_START..=DIRECT_PORTS_LAST`.
fn random_port() -> (p: u32)
    ensures
        DIRECT_PORTS_START <= p <= DIRECT_PORTS_LAST,
{
    random_in(DIRECT_PORTS_START, DIRECT_PORTS_LAST + 1)
}

/// The settings line for a server on `port` with `password` and `map_name`.
pub fn launch_settings(port: u32, password: &str, map_name: &str) -> (res: String)
    ensures
        res@ == launch_line(port, password@, map_name@),
{
    let mut s = "sv_port ".to_owned();
    push_decimal(&mut s, port as u64);
    s.append("; password ");
    s.append(password);
    s.append("; sv_map ");
    s.append(map_name);
    assert(s@ =~= launch_line(port, password@, map_name@));
    s
}

/// The processes of the launched servers, by identifier.
#[derive(Debug)]
pub struct GameServersHandler {
    servers: HashMap<usize, u32>,
}

impl GameServersHandler {
    /// The process id of each running server, by identifier.
    pub closed spec fn processes(&self) -> Map<usize, u32> {
        self.servers@
    }

    /// A handler that knows of no server.
    pub fn new() -> (h: GameServersHandler)
        ensures
            h.processes() == Map::<usize, u32>::empty(),
    {
        let _ = generate_password_string();
        GameServersHandler { servers: HashMap::new() }
    }

    /// Decides how a server on `map_name` is launched: a random port, a
    /// fresh password and the settings line that carries them.
    pub fn plan_launch(&self, map_name: &str) -> (plan: LaunchPlan)
        ensures
            DIRECT_PORTS_START <= plan.port <= DIRECT_PORTS_LAST,
            is_password(plan.password@),
            plan.server_string@ == launch_line(plan.port, plan.password@, map_name@),
    {
        let port = random_port();
        let password = generate_password_string();
        let server_string = launch_settings(port, password.as_str(), map_name);
        LaunchPlan { port, password, server_string }
    }

    /// Records the outcome of launching server `id`: with the process id of
    /// the launched server it is remembered and its port and password are
    /// returned; without one (the launch failed) nothing changes and the
    /// error is `Unknown`.
    pub fn start(&mut self, id: usize, port: u32, password: String, pid: Option<u32>) -> (res:
        Result<(u32, String), Errors>)
        ensures
            match pid {
                Some(p) => {
                    &&& final(self).processes() == old(self).processes().insert(id, p)
                    &&& res == Ok::<(u32, String), Errors>((port, password))
                },
                None => {
                    &&& final(self).processes() == old(self).processes()
                    &&& res == Err::<(u32, String), Errors>(Errors::Unknown)
                },
            },
    {
        match pid {
            Some(p) => {
                self.servers.insert(id, p);
                Ok((port, password))
            },
            None => Err(Errors::Unknown),
        }
    }

    /// Whether a server of identifier `id` is known.
    pub fn knows(&self, id: usize) -> (res: bool)
        ensures
            res == self.processes().contains_key(id),
    {
        self.servers.contains_key(&id)
    }

    /// Forgets server `id`, which must be known, and hands back the process to
    /// stop.
    pub fn shutdown(&mut self, id: usize) -> (pid: u32)
        requires
            old(self).processes().contains_key(id),
        ensures
            final(self).processes() == old(self).processes().remove(id),
            pid == old(self).processes()[id],
    {
        let removed = self.servers.remove(&id);
        removed.unwrap()
    }
}

/// Stopping reads back what starting recorded: after a server is recorded
/// under `id` with process `pid`, stopping `id` hands back `pid`; when `id`
/// was unknown before, the handler is then as it was.
pub proof fn lemma_shutdown_returns_started(processes: Map<usize, u32>, id: usize, pid: u32)
    ensures
        processes.insert(id, pid).contains_key(id),
        processes.insert(id, pid)[id] == pid,
        !processes.contains_key(id) ==> processes.insert(id, pid).remove(id) == processes,
{
    if !processes.contains_key(id) {
        assert(processes.insert(id, pid).remove(id) =~= processes);
    }
}

/// The outcome of stopping a process: `Ok` when the stop command ran,
/// `Unknown` when it could not be run.
pub fn shutdown_outcome(stop_ran: bool) -> (res: Result<(), Errors>)
    ensures
        stop_ran ==> res == Ok::<(), Errors>(()),
        !stop_ran ==> res == Err::<(), Errors>(Errors::Unknown),
{
    if stop_ran {
        Ok(())
    } else {
        Err(Errors::Unknown)
    }
}

} // verus!
