//! Decisions of the connection loop that do not touch the network.
use vstd::prelude::*;

use crate::protocol::Action;

verus! {

/// An address passes the allow list when the list is empty or names it.
pub open spec fn ip_admitted(allowed_ips: Seq<String>, ip: Seq<char>) -> bool {
    allowed_ips.len() == 0 || exists|i: int| 0 <= i < allowed_ips.len() && allowed_ips[i]@ == ip
}

/// Whether a connection from `ip` is served: an empty allow list admits
/// everybody, a non-empty one only the addresses it lists.
pub fn ip_allowed(allowed_ips: &Vec<String>, ip: &String) -> (res: bool)
    ensures
        res == ip_admitted(allowed_ips@, ip@),
{
    if allowed_ips.len() == 0 {
        return true;
    }
    let mut i: usize = 0;
    while i < allowed_ips.len()
        invariant
            i <= allowed_ips.len(),
            allowed_ips.len() > 0,
            forall|j: int| 0 <= j < i ==> allowed_ips@[j]@ != ip@,
        decreases allowed_ips.len() - i,
    {
        if allowed_ips[i] == *ip {
            return true;
        }
        i += 1;
    }
    false
}

/// An address that the allow list names is admitted, wherever in the list
/// it stands.
pub proof fn lemma_listed_ip_admitted(allowed_ips: Seq<String>, i: int)
    requires
        0 <= i < allowed_ips.len(),
    ensures
        ip_admitted(allowed_ips, allowed_ips[i]@),
{
}

/// An empty allow list admits every address.
pub proof fn lemma_empty_list_admits_all(allowed_ips: Seq<String>, ip: Seq<char>)
    requires
        allowed_ips.len() == 0,
    ensures
        ip_admitted(allowed_ips, ip),
{
}

/// A non-empty allow list refuses every address that none of its entries
/// names.
pub proof fn lemma_unlisted_ip_refused(allowed_ips: Seq<String>, ip: Seq<char>)
    requires
        allowed_ips.len() > 0,
        forall|i: int| 0 <= i < allowed_ips.len() ==> (#[trigger] allowed_ips[i])@ != ip,
    ensures
        !ip_admitted(allowed_ips, ip),
{
}

/// Adding an address to a non-empty allow list admits that address and
/// keeps admitting every address admitted before; nothing else changes.
pub proof fn lemma_extended_list_admits(allowed_ips: Seq<String>, extra: String, ip: Seq<char>)
    requires
        allowed_ips.len() > 0,
    ensures
        ip_admitted(allowed_ips.push(extra), ip) == (ip_admitted(allowed_ips, ip) || extra@ == ip),
{
    let longer = allowed_ips.push(extra);
    if ip_admitted(allowed_ips, ip) {
        let i = choose|i: int| 0 <= i < allowed_ips.len() && allowed_ips[i]@ == ip;
        assert(longer[i] == allowed_ips[i]);
    }
    if extra@ == ip {
        assert(longer[allowed_ips.len() as int] == extra);
    }
    if ip_admitted(longer, ip) && extra@ != ip {
        let i = choose|i: int| 0 <= i < longer.len() && longer[i]@ == ip;
        assert(i < allowed_ips.len());
        assert(allowed_ips[i] == longer[i]);
    }
}

/// What one read from a client connection brought.
#[derive(Debug, Clone, Copy, PartialEq, Eq, Structural)]
pub enum ReadEvent {
    /// The client closed the connection.
    Closed,
    /// Reading failed.
    Failed,
    /// Bytes arrived that are not a request.
    Unparsable,
    /// A request for the given action arrived.
    Request(Action),
}

/// What the connection loop does next.
#[derive(Debug, Clone, Copy, PartialEq, Eq, Structural)]
pub enum Step {
    /// Leave the loop and forget the client.
    Stop,
    /// Carry out the action, broadcast the response, and read again.
    Serve(Action),
}

/// The step for a read event: a known action is served, anything else ends
/// the connection.
pub open spec fn step_for(event: ReadEvent) -> Step {
    match event {
        ReadEvent::Request(a) => if a == Action::Unknown {
            Step::Stop
        } else {
            Step::Serve(a)
        },
        _ => Step::Stop,
    }
}

/// Every request for an action other than `Unknown` is served with that
/// same action.
pub proof fn lemma_known_action_served(a: Action)
    requires
        a != Action::Unknown,
    ensures
        step_for(ReadEvent::Request(a)) == Step::Serve(a),
{
}

/// A request for the `Unknown` action ends the connection.
pub proof fn lemma_unknown_action_stops()
    ensures
        step_for(ReadEvent::Request(Action::Unknown)) == Step::Stop,
{
}

/// A read that brought no request (the client closed, the read failed, or
/// the bytes were no request) ends the connection.
pub proof fn lemma_no_request_stops(event: ReadEvent)
    requires
        !(event is Request),
    ensures
        step_for(event) == Step::Stop,
{
}

/// A step that serves an action serves the action that was asked for, and
/// only a request can be served.
pub proof fn lemma_served_action_was_asked(event: ReadEvent, a: Action)
    requires
        step_for(event) == Step::Serve(a),
    ensures
        event == ReadEvent::Request(a),
        a != Action::Unknown,
{
}

/// Decides what the connection loop does after a read.
pub fn next_step(event: ReadEvent) -> (step: Step)
    ensures
        step == step_for(event),
{
    match event {
        ReadEvent::Request(a) => match a {
            Action::Unknown => Step::Stop,
            _ => Step::Serve(a),
        },
        _ => Step::Stop,
    }
}

} // verus!
