//! What the daemon decides for each request: the port, password and command
//! line of a new game server, the changes to the slot table, and the
//! response sent back.
use vstd::prelude::*;
use vstd::string::StringExecFns;

use crate::protocol::{
    failure_response, info_response, is_stats_response, shutdown_response, start_response,
    Response, ResponseCode, ResponseData,
};
use crate::random::{generate_password, is_password, random_in};
use crate::state::{
    first_free, first_serving, happenings_of, lemma_add_keeps_ports_distinct,
    lemma_remove_keeps_ports_distinct, port_taken, ports_distinct, serves, Info, Server, State,
    SystemStats,
};
use crate::text::{decimal, push_decimal};

verus! {

/// The first port handed to game servers.
pub const PORTS_START: u16 = 2000;

/// The port after the last one handed to game servers.
pub const PORTS_END: u16 = 3000;

/// Some port of the game-server range is not used by a running server.
pub open spec fn port_available(slots: Seq<Option<Server>>) -> bool {
    exists|p: u16| PORTS_START <= p < PORTS_END && !port_taken(slots, p)
}

/// Whether some port of the game-server range is free.
pub fn has_free_port(state: &State) -> (res: bool)
    ensures
        res == port_available(state.slots()),
{
    let mut p: u16 = PORTS_START;
    while p < PORTS_END
        invariant
            PORTS_START <= p <= PORTS_END,
            forall|q: u16| PORTS_START <= q < p ==> port_taken(state.slots(), q),
        decreases PORTS_END - p,
    {
        if !state.is_port_taken(p) {
            return true;
        }
        p += 1;
    }
    false
}

/// A free port of the game-server range, drawn at random, and drawn again
/// while the drawn one is in use. After as many draws as the range has
/// ports, the lowest free port is taken instead, so that the search ends.
pub fn gimme_port(state: &State) -> (port: u16)
    requires
        port_available(state.slots()),
    ensures
        PORTS_START <= port < PORTS_END,
        !port_taken(state.slots(), port),
{
    let mut draws: u16 = 0;
    while draws < PORTS_END - PORTS_START
        invariant
            draws <= PORTS_END - PORTS_START,
        decreases PORTS_END - PORTS_START - draws,
    {
        let drawn: u16 = random_in(PORTS_START as u32, PORTS_END as u32) as u16;
        if !state.is_port_taken(drawn) {
            return drawn;
        }
        draws += 1;
    }
    let mut p: u16 = PORTS_START;
    while p < PORTS_END
        invariant
            PORTS_START <= p <= PORTS_END,
            forall|q: u16| PORTS_START <= q < p ==> port_taken(state.slots(), q),
            port_available(state.slots()),
        decreases PORTS_END - p,
    {
        if !state.is_port_taken(p) {
            return p;
        }
        p += 1;
    }
    proof {
        let free = choose|q: u16| PORTS_START <= q < PORTS_END && !port_taken(state.slots(), q);
        assert(port_taken(state.slots(), free));
    }
    PORTS_START
}

/// The log file of a game server: under `./logs/`, named by the start time
/// and the happening.
pub open spec fn logfile_text(timestamp: Seq<char>, happening_id: usize) -> Seq<char> {
    "./logs/"@ + timestamp + "_"@ + decimal(happening_id as nat) + ".log"@
}

/// The command pipe of the game server in a slot.
pub open spec fn fifo_text(slot: usize) -> Seq<char> {
    decimal(slot as nat) + ".fifo"@
}

/// The settings line a game server is started with.
pub open spec fn server_args_text(
    slot: usize,
    happening_id: usize,
    port: u16,
    password: Seq<char>,
    map_name: Seq<char>,
    logfile: Seq<char>,
    fifo: Seq<char>,
) -> Seq<char> {
    "sv_id "@ + decimal(slot as nat) + "; sv_happening_id "@ + decimal(happening_id as nat)
        + "; sv_shutdown_after_finish 1; sv_port "@ + decimal(port as nat) + "; password "@
        + password + "; sv_map "@ + map_name + "; logfile "@ + logfile + "; sv_input_fifo "@ + fifo
}

/// The log file path for a game server started at `timestamp`.
pub fn logfile_path(timestamp: &str, happening_id: usize) -> (res: String)
    ensures
        res@ == logfile_text(timestamp@, happening_id),
{
    let mut s = "./logs/".to_owned();
    s.append(timestamp);
    s.append("_");
    push_decimal(&mut s, happening_id as u64);
    s.append(".log");
    assert(s@ =~= logfile_text(timestamp@, happening_id));
    s
}

/// The command pipe name of the game server in `slot`.
pub fn fifo_name(slot: usize) -> (res: String)
    ensures
        res@ == fifo_text(slot),
{
    let mut s = String::new();
    push_decimal(&mut s, slot as u64);
    s.append(".fifo");
    assert(s@ =~= fifo_text(slot));
    s
}

/// The settings line for a game server.
pub fn server_args(
    slot: usize,
    happening_id: usize,
    port: u16,
    password: &str,
    map_name: &str,
    logfile: &str,
    fifo: &str,
) -> (res: String)
    ensures
        res@ == server_args_text(slot, happening_id, port, password@, map_name@, logfile@, fifo@),
{
    let mut s = "sv_id ".to_owned();
    push_decimal(&mut s, slot as u64);
    s.append("; sv_happening_id ");
    push_decimal(&mut s, happening_id as u64);
    s.append("; sv_shutdown_after_finish 1; sv_port ");
    push_decimal(&mut s, port as u64);
    s.append("; password ");
    s.append(password);
    s.append("; sv_map ");
    s.append(map_name);
    s.append("; logfile ");
    s.append(logfile);
    s.append("; sv_input_fifo ");
    s.append(fifo);
    assert(s@ =~= server_args_text(slot, happening_id, port, password@, map_name@, logfile@, fifo@));
    s
}

/// A character of an RFC 3339 time stamp: a digit or one of `-`, `+`, `T`,
/// `:` and `.`.
pub open spec fn is_stamp_char(c: char) -> bool {
    ('0' <= c && c <= '9') || c == '-' || c == '+' || c == 'T' || c == ':' || c == '.'
}

/// The shape of an instant in UTC as `to_rfc3339` writes it: the date, `T`,
/// the time of day to the second with a fraction where there is one, then
/// the offset `+00:00`. That is at least 25 characters (a four-digit year
/// with no fraction), each a digit or a separator, the last six `+00:00`.
pub open spec fn is_utc_stamp(ts: Seq<char>) -> bool {
    &&& ts.len() >= 25
    &&& ts.subrange(ts.len() - 6, ts.len() as int) == seq!['+', '0', '0', ':', '0', '0']
    &&& forall|i: int| 0 <= i < ts.len() ==> is_stamp_char(#[trigger] ts[i])
}

/// Calls `chrono::Utc::now` and writes the instant with `to_rfc3339`, which
/// writes the date and the time with `write_rfc3339` (fraction only where
/// it is not zero, offset written as `+00:00` rather than `Z`). Which
/// instant it is depends on the clock, so only the shape of the text is
/// stated: `is_utc_stamp`.
#[verifier::external_body]
fn now_rfc3339() -> (res: String)
    ensures
        is_utc_stamp(res@),
{
    chrono::Utc::now().to_rfc3339()
}

/// Log files of one happening started at different times are different
/// files: the log file name determines the start time it was made with.
pub proof fn lemma_logfile_names_start_time(t1: Seq<char>, t2: Seq<char>, happening_id: usize)
    requires
        logfile_text(t1, happening_id) == logfile_text(t2, happening_id),
    ensures
        t1 == t2,
{
    reveal_strlit("./logs/");
    reveal_strlit("_");
    reveal_strlit(".log");
    let d = decimal(happening_id as nat);
    let f1 = logfile_text(t1, happening_id);
    let f2 = logfile_text(t2, happening_id);
    assert(f1 =~= "./logs/"@ + (t1 + ("_"@ + d + ".log"@)));
    assert(f2 =~= "./logs/"@ + (t2 + ("_"@ + d + ".log"@)));
    assert(t1.len() == t2.len());
    assert(t1 =~= f1.subrange(7, 7 + t1.len() as int));
    assert(t2 =~= f2.subrange(7, 7 + t2.len() as int));
}

/// The log file of a game server started at a UTC instant lies under
/// `./logs/` and its name ends with the offset of the instant, `_`, the
/// happening and `.log`.
pub proof fn lemma_logfile_shape(ts: Seq<char>, happening_id: usize)
    requires
        is_utc_stamp(ts),
    ensures
        logfile_text(ts, happening_id).subrange(0, 7) == "./logs/"@,
        logfile_text(ts, happening_id).subrange(7 + ts.len() as int - 6, 8 + ts.len() as int) == seq![
            '+',
            '0',
            '0',
            ':',
            '0',
            '0',
            '_',
        ],
        logfile_text(ts, happening_id).subrange(
            8 + ts.len() as int,
            logfile_text(ts, happening_id).len() as int,
        ) == decimal(happening_id as nat) + ".log"@,
{
    reveal_strlit("./logs/");
    reveal_strlit("_");
    let d = decimal(happening_id as nat);
    let f = logfile_text(ts, happening_id);
    assert(f =~= "./logs/"@ + (ts + ("_"@ + (d + ".log"@))));
    assert(f.subrange(0, 7) =~= "./logs/"@);
    assert(f.subrange(7 + ts.len() as int - 6, 8 + ts.len() as int) =~= ts.subrange(
        ts.len() - 6,
        ts.len() as int,
    ).push('_'));
    assert(f.subrange(8 + ts.len() as int, f.len() as int) =~= d + ".log"@);
}

/// Everything decided before a game server is launched.
#[derive(Debug)]
pub struct StartPlan {
    pub slot: usize,
    pub port: u16,
    pub password: String,
    pub logfile: String,
    pub fifo: String,
    pub server_args: String,
    /// The instant the plan was made, as the clock gave it; the log file is
    /// named by it.
    pub started_at: String,
}

/// Decides how a game server for `happening_id` on `map_name` is launched:
/// a free port, a fresh password, the first free slot, and the log file,
/// pipe and settings line that go with them; the log file is named by the
/// current time. `None` when no slot is free.
pub fn plan_start(state: &State, happening_id: usize, map_name: &str) -> (res: Option<StartPlan>)
    requires
        port_available(state.slots()),
    ensures
        match res {
            None => forall|j: int| 0 <= j < state.slots().len() ==> state.slots()[j] is Some,
            Some(plan) => {
                &&& first_free(state.slots(), plan.slot as int)
                &&& PORTS_START <= plan.port < PORTS_END
                &&& !port_taken(state.slots(), plan.port)
                &&& is_password(plan.password@)
                &&& exists|timestamp: Seq<char>|
                    plan.logfile@ == #[trigger] logfile_text(timestamp, happening_id)
                &&& is_utc_stamp(plan.started_at@)
                &&& plan.logfile@ == logfile_text(plan.started_at@, happening_id)
                &&& plan.fifo@ == fifo_text(plan.slot)
                &&& plan.server_args@ == server_args_text(
                    plan.slot,
                    happening_id,
                    plan.port,
                    plan.password@,
                    map_name@,
                    plan.logfile@,
                    plan.fifo@,
                )
            },
        },
{
    let port = gimme_port(state);
    let password = generate_password();
    match state.empty_index() {
        None => None,
        Some(slot) => {
            let timestamp = now_rfc3339();
            let logfile = logfile_path(timestamp.as_str(), happening_id);
            let fifo = fifo_name(slot);
            let args = server_args(
                slot,
                happening_id,
                port,
                password.as_str(),
                map_name,
                logfile.as_str(),
                fifo.as_str(),
            );
            Some(
                StartPlan {
                    slot,
                    port,
                    password,
                    logfile,
                    fifo,
                    server_args: args,
                    started_at: timestamp,
                },
            )
        },
    }
}

/// Records the outcome of launching the planned game server, whose slot is
/// free and whose port no running server uses, as `plan_start` decides. With the
/// process id of the launched server, the server takes its slot and the
/// response reports its password and port; without one (the launch failed)
/// nothing changes and the response reports the failure.
pub fn start_server(
    state: &mut State,
    plan: StartPlan,
    happening_id: usize,
    map_name: String,
    pid: Option<u32>,
) -> (r: Response)
    requires
        old(state).wf(),
        plan.slot < old(state).slots().len(),
        old(state).slots()[plan.slot as int] is None,
        !port_taken(old(state).slots(), plan.port),
        old(state).used() < u32::MAX || old(state).consistent(),
    ensures
        final(state).wf(),
        final(state).max_slots() == old(state).max_slots(),
        old(state).consistent() ==> final(state).consistent(),
        ports_distinct(old(state).slots()) ==> ports_distinct(final(state).slots()),
        match pid {
            Some(p) => {
                &&& final(state).slots() == old(state).slots().update(
                    plan.slot as int,
                    Some(
                        (Server {
                            port: plan.port,
                            happening_id,
                            map_name,
                            pid: p,
                            password: plan.password,
                        }),
                    ),
                )
                &&& final(state).used() == old(state).used() + 1
                &&& r == start_response(plan.password, plan.port)
            },
            None => {
                &&& final(state).slots() == old(state).slots()
                &&& final(state).used() == old(state).used()
                &&& r == failure_response()
            },
        },
{
    match pid {
        Some(p) => {
            proof {
                if ports_distinct(old(state).slots()) {
                    lemma_add_keeps_ports_distinct(
                        old(state).slots(),
                        plan.slot as int,
                        Server {
                            port: plan.port,
                            happening_id,
                            map_name,
                            pid: p,
                            password: plan.password,
                        },
                    );
                }
            }
            let password = plan.password;
            state.add_server(plan.slot, happening_id, plan.port, p, password.clone(), map_name);
            Response {
                code: ResponseCode::Success,
                data: Some(ResponseData::Start { password, port: plan.port as u32 }),
            }
        },
        None => Response { code: ResponseCode::WhoopsieDaisy, data: None },
    }
}

/// Takes the server of `happening_id` out of the table and answers that it
/// is shut down. Some slot must serve that happening.
pub fn shutdown_server(state: &mut State, happening_id: usize) -> (res: (Server, Response))
    requires
        old(state).wf(),
        exists|i: int| serves(old(state).slots(), i, happening_id),
    ensures
        final(state).wf(),
        final(state).max_slots() == old(state).max_slots(),
        res.1 == shutdown_response(happening_id),
        exists|i: int|
            {
                &&& first_serving(old(state).slots(), i, happening_id)
                &&& old(state).slots()[i] == Some(res.0)
                &&& final(state).slots() == old(state).slots().update(i, None)
                &&& final(state).used() == old(state).used() - 1
            },
        old(state).consistent() ==> final(state).consistent(),
        ports_distinct(old(state).slots()) ==> ports_distinct(final(state).slots()),
{
    let removed = state.remove_server(happening_id);
    let server = removed.unwrap();
    proof {
        let i = choose|i: int|
            {
                &&& first_serving(old(state).slots(), i, happening_id)
                &&& old(state).slots()[i] == Some(server)
                &&& state.slots() == old(state).slots().update(i, None)
                &&& state.used() == old(state).used() - 1
            };
        if ports_distinct(old(state).slots()) {
            lemma_remove_keeps_ports_distinct(old(state).slots(), i);
        }
    }
    let r = Response {
        code: ResponseCode::Success,
        data: Some(ResponseData::Shutdown { id: happening_id as u32 }),
    };
    (server, r)
}

/// The response announcing that the server of a happening has gone.
pub fn shutdown_notice(happening_id: usize) -> (r: Response)
    ensures
        r == shutdown_response(happening_id),
{
    Response {
        code: ResponseCode::Success,
        data: Some(ResponseData::Shutdown { id: happening_id as u32 }),
    }
}

/// Answers a usage query.
pub fn get_info(state: &State) -> (r: Response)
    ensures
        r == info_response((Info { used: state.used(), max: state.max_slots() })),
{
    state.get_info().into_response()
}

/// Answers a statistics query with the machine's memory, read now, and
/// every running server, in slot order. The table does not change.
pub fn stats(state: &mut State) -> (r: Response)
    ensures
        final(state).slots() == old(state).slots(),
        final(state).used() == old(state).used(),
        final(state).max_slots() == old(state).max_slots(),
        final(state).wf() == old(state).wf(),
        exists|system: SystemStats| is_stats_response(r, system, happenings_of(old(state).slots())),
{
    let st = state.stats();
    let ghost system = st.system;
    let r = st.into_response();
    assert(is_stats_response(r, system, happenings_of(old(state).slots())));
    r
}

/// Answers a statistics query with the given machine figures and every
/// running server, in slot order.
pub fn stats_with(state: &State, total_memory: u64, free_memory: u64) -> (r: Response)
    ensures
        is_stats_response(r, (SystemStats { total_memory, free_memory }), happenings_of(state.slots())),
{
    state.stats_with(total_memory, free_memory).into_response()
}

} // verus!
