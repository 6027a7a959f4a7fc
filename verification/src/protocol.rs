//! The messages exchanged with clients, as values: what a request asks for
//! and what a response reports.
use vstd::prelude::*;

use crate::state::{Info, Stats, SystemHappening, SystemStats};

verus! {

/// What a client asks for.
#[derive(Debug, Clone, Copy, PartialEq, Eq, Structural)]
pub enum Action {
    Unknown,
    Info,
    Start,
    Shutdown,
    Stats,
}

/// A request as it arrives: the number of the action asked for, the
/// happening it is about, the map to start, and the origin tag that the
/// response carries back.
#[derive(Debug)]
pub struct Request {
    pub action: i32,
    pub id: u64,
    pub map_name: String,
    pub origin: String,
}

/// The action that a number on the wire stands for.
pub open spec fn action_of_number(n: i32) -> Option<Action> {
    if n == 0 {
        Some(Action::Unknown)
    } else if n == 1 {
        Some(Action::Info)
    } else if n == 2 {
        Some(Action::Start)
    } else if n == 3 {
        Some(Action::Shutdown)
    } else if n == 4 {
        Some(Action::Stats)
    } else {
        None
    }
}

impl Action {
    /// The action that a number on the wire stands for, `None` for a number
    /// that names no action.
    pub fn from_number(n: i32) -> (res: Option<Action>)
        ensures
            res == action_of_number(n),
    {
        match n {
            0 => Some(Action::Unknown),
            1 => Some(Action::Info),
            2 => Some(Action::Start),
            3 => Some(Action::Shutdown),
            4 => Some(Action::Stats),
            _ => None,
        }
    }
}

/// Whether a request was carried out.
#[derive(Debug, Clone, Copy, PartialEq, Eq, Structural)]
pub enum ResponseCode {
    Success,
    WhoopsieDaisy,
}

/// What a response reports of the machine.
#[derive(Debug, Clone, Copy, PartialEq, Eq, Structural)]
pub struct SystemReport {
    pub total_memory: u64,
    pub free_memory: u64,
}

/// What a response reports of one running game server.
#[derive(Debug)]
pub struct HappeningReport {
    pub port: u32,
    pub pid: u32,
    pub map_name: String,
    pub password: String,
}

/// The payload of a response.
#[derive(Debug)]
pub enum ResponseData {
    Info { used: u32, max: u32 },
    Start { password: String, port: u32 },
    Shutdown { id: u32 },
    Stats { system: SystemReport, happenings: Vec<HappeningReport> },
}

/// A response: its code and, for a carried-out request, its payload.
#[derive(Debug)]
pub struct Response {
    pub code: ResponseCode,
    pub data: Option<ResponseData>,
}

/// A report of a server's entry in the statistics.
pub open spec fn happening_report(h: SystemHappening) -> HappeningReport {
    HappeningReport { port: h.port as u32, pid: h.pid, map_name: h.map_name, password: h.password }
}

/// The report of each entry of a list, in order.
pub open spec fn happening_reports(hs: Seq<SystemHappening>) -> Seq<HappeningReport> {
    hs.map_values(|h: SystemHappening| happening_report(h))
}

/// The successful response to a usage query.
pub open spec fn info_response(info: Info) -> Response {
    Response { code: ResponseCode::Success, data: Some(ResponseData::Info { used: info.used, max: info.max }) }
}

/// The successful response to a start request.
pub open spec fn start_response(password: String, port: u16) -> Response {
    Response {
        code: ResponseCode::Success,
        data: Some(ResponseData::Start { password, port: port as u32 }),
    }
}

/// The response announcing that the server of a happening is gone. The
/// identifier is carried in 32 bits: a larger one is cut to its low bits.
pub open spec fn shutdown_response(happening_id: usize) -> Response {
    Response { code: ResponseCode::Success, data: Some(ResponseData::Shutdown { id: happening_id as u32 }) }
}

/// The response to a request that could not be carried out.
pub open spec fn failure_response() -> Response {
    Response { code: ResponseCode::WhoopsieDaisy, data: None }
}

/// A statistics response holds these machine figures and these entries.
pub open spec fn is_stats_response(r: Response, system: SystemStats, hs: Seq<SystemHappening>) -> bool {
    &&& r.code == ResponseCode::Success
    &&& r.data matches Some(ResponseData::Stats { system: sys, happenings })
    &&& sys == (SystemReport { total_memory: system.total_memory, free_memory: system.free_memory })
    &&& happenings@ == happening_reports(hs)
}

impl Info {
    /// The usage figures as a successful response.
    pub fn into_response(self) -> (r: Response)
        ensures
            r == info_response(self),
    {
        Response { code: ResponseCode::Success, data: Some(ResponseData::Info { used: self.used, max: self.max }) }
    }
}

impl SystemHappening {
    /// The entry as it is reported: the port widened to 32 bits.
    pub fn into_report(self) -> (r: HappeningReport)
        ensures
            r == happening_report(self),
    {
        HappeningReport { port: self.port as u32, pid: self.pid, map_name: self.map_name, password: self.password }
    }
}

impl Stats {
    /// The statistics as a successful response, entries in the same order.
    pub fn into_response(self) -> (r: Response)
        ensures
            is_stats_response(r, self.system, self.happenings@),
    {
        let ghost hs = self.happenings@;
        let mut source = self.happenings;
        let mut reports: Vec<HappeningReport> = Vec::new();
        let mut rest: Vec<HappeningReport> = Vec::new();
        // Entries are taken from the back, then put back in order.
        while source.len() > 0
            invariant
                hs.len() == source@.len() + rest@.len(),
                source@ == hs.take(source@.len() as int),
                forall|k: int|
                    0 <= k < rest@.len() ==> #[trigger] rest@[k] == happening_report(
                        hs[hs.len() - 1 - k],
                    ),
            decreases source@.len(),
        {
            let h = source.pop().unwrap();
            assert(source@ =~= hs.take(source@.len() as int));
            rest.push(h.into_report());
        }
        while rest.len() > 0
            invariant
                hs.len() == reports@.len() + rest@.len(),
                forall|k: int|
                    0 <= k < rest@.len() ==> #[trigger] rest@[k] == happening_report(
                        hs[hs.len() - 1 - k],
                    ),
                forall|k: int|
                    0 <= k < reports@.len() ==> #[trigger] reports@[k] == happening_report(hs[k]),
            decreases rest@.len(),
        {
            let r = rest.pop().unwrap();
            reports.push(r);
        }
        assert(reports@ =~= happening_reports(hs));
        let system = SystemReport {
            total_memory: self.system.total_memory,
            free_memory: self.system.free_memory,
        };
        Response { code: ResponseCode::Success, data: Some(ResponseData::Stats { system, happenings: reports }) }
    }
}

} // verus!
