//! The table of game-server slots that the daemon keeps: which slot runs
//! which happening, on which port, and how many slots are in use.
use vstd::prelude::*;

verus! {

/// Usage figures reported to clients: slots in use and slots in total.
#[derive(Debug, Clone, Copy, PartialEq, Eq, Structural)]
pub struct Info {
    pub used: u32,
    pub max: u32,
}

/// Memory figures of the machine, in the units the system reports.
#[derive(Debug, Clone, Copy, PartialEq, Eq, Structural)]
pub struct SystemStats {
    pub total_memory: u64,
    pub free_memory: u64,
}

/// What is reported of one running game server.
#[derive(Debug)]
pub struct SystemHappening {
    pub pid: u32,
    pub map_name: String,
    pub port: u16,
    pub password: String,
}

/// Machine figures together with every running game server, in slot order.
#[derive(Debug)]
pub struct Stats {
    pub system: SystemStats,
    pub happenings: Vec<SystemHappening>,
}

/// A running game server: the happening it serves, where it listens, its
/// process and its password.
#[derive(Debug)]
pub struct Server {
    pub port: u16,
    pub happening_id: usize,
    pub map_name: String,
    pub pid: u32,
    pub password: String,
}

/// The machine probe of `sysinfo`.
#[verifier::external_type_specification]
#[verifier::external_body]
pub struct ExSystem(sysinfo::System);

/// Calls `sysinfo::System::new_all`, a probe loaded with everything it can
/// read of the machine.
#[verifier::external_body]
fn system_new_all() -> sysinfo::System {
    sysinfo::System::new_all()
}

/// Calls `sysinfo::System::refresh_all`, which reads the machine again.
#[verifier::external_body]
fn system_refresh_all(sys: &mut sysinfo::System) {
    sys.refresh_all()
}

/// Calls `sysinfo::System::total_memory`: the machine's memory at the last
/// reading. What it is depends on the machine, so nothing is stated of it.
#[verifier::external_body]
fn system_total_memory(sys: &sysinfo::System) -> u64 {
    sys.total_memory()
}

/// Calls `sysinfo::System::free_memory`: the machine's free memory at the
/// last reading. What it is depends on the machine, so nothing is stated.
#[verifier::external_body]
fn system_free_memory(sys: &sysinfo::System) -> u64 {
    sys.free_memory()
}

/// The command written to a game server's pipe to make it shut down.
pub open spec fn shutdown_command_text() -> Seq<char> {
    "shutdown Foo"@
}

impl Server {
    /// The command that shuts this server down when written to its pipe.
    pub fn shutdown_command(&self) -> (res: &'static str)
        ensures
            res@ == shutdown_command_text(),
    {
        "shutdown Foo"
    }
}

/// The number of occupied slots.
pub open spec fn occupied_count(slots: Seq<Option<Server>>) -> nat
    decreases slots.len(),
{
    if slots.len() == 0 {
        0
    } else {
        occupied_count(slots.drop_last()) + if slots.last() is Some {
            1nat
        } else {
            0nat
        }
    }
}

/// What a report says of one server.
pub open spec fn happening_of(s: Server) -> SystemHappening {
    SystemHappening { pid: s.pid, map_name: s.map_name, port: s.port, password: s.password }
}

/// The report of every occupied slot, in slot order.
pub open spec fn happenings_of(slots: Seq<Option<Server>>) -> Seq<SystemHappening>
    decreases slots.len(),
{
    if slots.len() == 0 {
        Seq::empty()
    } else {
        let rest = happenings_of(slots.drop_last());
        match slots.last() {
            Some(s) => rest.push(happening_of(s)),
            None => rest,
        }
    }
}

/// Some slot runs a server that listens on `port`.
pub open spec fn port_taken(slots: Seq<Option<Server>>, port: u16) -> bool {
    exists|i: int| 0 <= i < slots.len() && ((#[trigger] slots[i]) matches Some(s) && s.port == port)
}

/// Slot `i` runs a server for `happening_id`.
pub open spec fn serves(slots: Seq<Option<Server>>, i: int, happening_id: usize) -> bool {
    0 <= i < slots.len() && (slots[i] matches Some(s) && s.happening_id == happening_id)
}

/// Slot `i` is the first slot that runs a server for `happening_id`.
pub open spec fn first_serving(slots: Seq<Option<Server>>, i: int, happening_id: usize) -> bool {
    &&& serves(slots, i, happening_id)
    &&& forall|j: int| 0 <= j < i ==> !serves(slots, j, happening_id)
}

/// Slot `i` is the first free slot.
pub open spec fn first_free(slots: Seq<Option<Server>>, i: int) -> bool {
    &&& 0 <= i < slots.len()
    &&& slots[i] is None
    &&& forall|j: int| 0 <= j < i ==> slots[j] is Some
}

/// Counting after one slot changed: the old slot leaves the count and the
/// new one enters it.
pub proof fn lemma_occupied_count_update(slots: Seq<Option<Server>>, i: int, v: Option<Server>)
    requires
        0 <= i < slots.len(),
    ensures
        occupied_count(slots.update(i, v)) + (if slots[i] is Some { 1int } else { 0int })
            == occupied_count(slots) + (if v is Some { 1int } else { 0int }),
    decreases slots.len(),
{
    let n = slots.update(i, v);
    if i == slots.len() - 1 {
        assert(n.drop_last() =~= slots.drop_last());
    } else {
        lemma_occupied_count_update(slots.drop_last(), i, v);
        assert(n.drop_last() =~= slots.drop_last().update(i, v));
    }
}

/// The count of a table is at most its length.
pub proof fn lemma_occupied_count_bound(slots: Seq<Option<Server>>)
    ensures
        occupied_count(slots) <= slots.len(),
    decreases slots.len(),
{
    if slots.len() > 0 {
        lemma_occupied_count_bound(slots.drop_last());
    }
}

/// The report holds one entry per occupied slot.
pub proof fn lemma_happenings_len(slots: Seq<Option<Server>>)
    ensures
        happenings_of(slots).len() == occupied_count(slots),
    decreases slots.len(),
{
    if slots.len() > 0 {
        lemma_happenings_len(slots.drop_last());
    }
}

/// Removing undoes adding: once a server for a happening that no slot
/// serves is put into a free slot, that slot is the first to serve the
/// happening, and freeing it gives back the table as it was.
pub proof fn lemma_remove_undoes_add(slots: Seq<Option<Server>>, id: int, server: Server)
    requires
        0 <= id < slots.len(),
        slots[id] is None,
        forall|i: int| !serves(slots, i, server.happening_id),
    ensures
        first_serving(slots.update(id, Some(server)), id, server.happening_id),
        slots.update(id, Some(server)).update(id, None) == slots,
{
    let added = slots.update(id, Some(server));
    assert forall|j: int| 0 <= j < id implies !serves(added, j, server.happening_id) by {
        assert(added[j] == slots[j]);
        assert(!serves(slots, j, server.happening_id));
    }
    assert(added.update(id, None) =~= slots);
}

/// A server that was just added makes its port taken.
pub proof fn lemma_added_port_taken(slots: Seq<Option<Server>>, id: int, server: Server)
    requires
        0 <= id < slots.len(),
    ensures
        port_taken(slots.update(id, Some(server)), server.port),
{
    assert(slots.update(id, Some(server))[id] == Some(server));
}

/// Freeing a slot leaves the ports of all other servers taken, and frees the
/// port of the removed one unless another server uses it too.
pub proof fn lemma_removed_port(slots: Seq<Option<Server>>, id: int, server: Server, port: u16)
    requires
        0 <= id < slots.len(),
        slots[id] == Some(server),
    ensures
        port != server.port ==> (port_taken(slots.update(id, None), port) == port_taken(slots, port)),
        port_taken(slots.update(id, None), server.port) <==> exists|j: int|
            0 <= j < slots.len() && j != id && ((#[trigger] slots[j]) matches Some(t) && t.port
                == server.port),
{
    let freed = slots.update(id, None);
    if port != server.port {
        if port_taken(slots, port) {
            let j = choose|j: int|
                0 <= j < slots.len() && ((#[trigger] slots[j]) matches Some(s) && s.port == port);
            assert(freed[j] == slots[j]);
        }
        if port_taken(freed, port) {
            let j = choose|j: int|
                0 <= j < freed.len() && ((#[trigger] freed[j]) matches Some(s) && s.port == port);
            assert(freed[j] == slots[j]);
        }
    }
    if port_taken(freed, server.port) {
        let j = choose|j: int|
            0 <= j < freed.len() && ((#[trigger] freed[j]) matches Some(s) && s.port
                == server.port);
        assert(freed[j] == slots[j]);
    }
    if exists|j: int|
        0 <= j < slots.len() && j != id && ((#[trigger] slots[j]) matches Some(t) && t.port
            == server.port) {
        let j = choose|j: int|
            0 <= j < slots.len() && j != id && ((#[trigger] slots[j]) matches Some(t) && t.port
                == server.port);
        assert(freed[j] == slots[j]);
    }
}

/// No two running servers listen on the same port.
pub open spec fn ports_distinct(slots: Seq<Option<Server>>) -> bool {
    forall|i: int, j: int|
        #![trigger slots[i], slots[j]]
        0 <= i < slots.len() && 0 <= j < slots.len() && i != j && slots[i] is Some
            && slots[j] is Some ==> slots[i]->0.port != slots[j]->0.port
}

/// Putting a server on a port that no running server uses into a free slot
/// keeps the ports of the running servers distinct.
pub proof fn lemma_add_keeps_ports_distinct(slots: Seq<Option<Server>>, id: int, server: Server)
    requires
        0 <= id < slots.len(),
        slots[id] is None,
        ports_distinct(slots),
        !port_taken(slots, server.port),
    ensures
        ports_distinct(slots.update(id, Some(server))),
{
    let added = slots.update(id, Some(server));
    assert forall|i: int, j: int|
        0 <= i < added.len() && 0 <= j < added.len() && i != j && added[i] is Some && added[j]
            is Some implies #[trigger] added[i]->0.port != #[trigger] added[j]->0.port by {
        if i == id {
            assert(added[j] == slots[j]);
            assert(slots[j] matches Some(s) && s.port == slots[j]->0.port);
        } else if j == id {
            assert(added[i] == slots[i]);
            assert(slots[i] matches Some(s) && s.port == slots[i]->0.port);
        } else {
            assert(added[i] == slots[i] && added[j] == slots[j]);
        }
    }
}

/// Freeing a slot keeps the ports of the running servers distinct.
pub proof fn lemma_remove_keeps_ports_distinct(slots: Seq<Option<Server>>, id: int)
    requires
        0 <= id < slots.len(),
        ports_distinct(slots),
    ensures
        ports_distinct(slots.update(id, None)),
{
    let freed = slots.update(id, None);
    assert forall|i: int, j: int|
        0 <= i < freed.len() && 0 <= j < freed.len() && i != j && freed[i] is Some && freed[j]
            is Some implies #[trigger] freed[i]->0.port != #[trigger] freed[j]->0.port by {
        assert(freed[i] == slots[i] && freed[j] == slots[j]);
    }
}

/// In a consistent table the statistics list one entry per counted server.
pub proof fn lemma_report_matches_usage(slots: Seq<Option<Server>>, used: u32)
    requires
        used == occupied_count(slots),
    ensures
        happenings_of(slots).len() == used,
{
    lemma_happenings_len(slots);
}

/// The slot table. Each of its `max` slots is free or runs one server;
/// `in_use` counts the servers that were added and not yet removed. The
/// table keeps a probe of the machine for the statistics it reports.
pub struct State {
    servers: Vec<Option<Server>>,
    sys: sysinfo::System,
    max: u32,
    in_use: u32,
}

impl State {
    /// The slots, in order.
    pub closed spec fn slots(&self) -> Seq<Option<Server>> {
        self.servers@
    }

    /// The number of slots the table was made with.
    pub closed spec fn max_slots(&self) -> u32 {
        self.max
    }

    /// The usage counter.
    pub closed spec fn used(&self) -> u32 {
        self.in_use
    }

    /// The table has `max` slots, and the counter is never below the number
    /// of running servers.
    pub closed spec fn wf(&self) -> bool {
        &&& self.servers@.len() == self.max
        &&& occupied_count(self.servers@) <= self.in_use
    }

    /// The usage counter equals the number of running servers.
    pub open spec fn consistent(&self) -> bool {
        self.used() == occupied_count(self.slots())
    }

    /// In a consistent table the counter never exceeds the number of slots.
    pub proof fn lemma_used_within_max(&self)
        requires
            self.wf(),
            self.consistent(),
        ensures
            self.used() <= self.max_slots(),
            self.slots().len() == self.max_slots(),
    {
        lemma_occupied_count_bound(self.servers@);
    }

    /// A table of `max` free slots.
    pub fn new(max: u32) -> (s: State)
        ensures
            s.wf(),
            s.slots() == Seq::new(max as nat, |i: int| None::<Server>),
            s.max_slots() == max,
            s.used() == 0,
            s.consistent(),
            ports_distinct(s.slots()),
    {
        let mut servers: Vec<Option<Server>> = Vec::new();
        let mut i: u32 = 0;
        while i < max
            invariant
                i <= max,
                servers@ == Seq::new(i as nat, |k: int| None::<Server>),
            decreases max - i,
        {
            servers.push(None);
            i += 1;
            assert(servers@ =~= Seq::new(i as nat, |k: int| None::<Server>));
        }
        proof {
            assert forall|k: int| 0 <= k <= servers@.len() implies occupied_count(
                #[trigger] servers@.take(k),
            ) == 0 by {
                lemma_count_of_free(servers@, k);
            }
            assert(servers@.take(servers@.len() as int) =~= servers@);
        }
        State { servers, sys: system_new_all(), max, in_use: 0 }
    }

    /// The first free slot, or `None` when every slot runs a server.
    pub fn empty_index(&self) -> (res: Option<usize>)
        ensures
            match res {
                Some(i) => first_free(self.slots(), i as int),
                None => forall|j: int| 0 <= j < self.slots().len() ==> self.slots()[j] is Some,
            },
    {
        let mut i: usize = 0;
        while i < self.servers.len()
            invariant
                i <= self.servers@.len(),
                forall|j: int| 0 <= j < i ==> self.servers@[j] is Some,
            decreases self.servers@.len() - i,
        {
            if self.servers[i].is_none() {
                return Some(i);
            }
            i += 1;
        }
        None
    }

    /// Whether some running server listens on `port`.
    pub fn is_port_taken(&self, port: u16) -> (res: bool)
        ensures
            res == port_taken(self.slots(), port),
    {
        let mut i: usize = 0;
        while i < self.servers.len()
            invariant
                i <= self.servers@.len(),
                forall|j: int|
                    0 <= j < i ==> !((#[trigger] self.servers@[j]) matches Some(s) && s.port
                        == port),
            decreases self.servers@.len() - i,
        {
            if let Some(srv) = &self.servers[i] {
                if srv.port == port {
                    return true;
                }
            }
            i += 1;
        }
        false
    }

    /// Puts a server for `happening_id` into slot `id` and counts it. The slot
    /// is overwritten whatever it held; the counter goes up by one either way.
    pub fn add_server(
        &mut self,
        id: usize,
        happening_id: usize,
        port: u16,
        pid: u32,
        password: String,
        map_name: String,
    )
        requires
            old(self).wf(),
            id < old(self).slots().len(),
            old(self).used() < u32::MAX || (old(self).consistent() && old(self).slots()[id as int] is None),
        ensures
            final(self).wf(),
            final(self).slots() == old(self).slots().update(
                id as int,
                Some((Server { port, happening_id, map_name, pid, password })),
            ),
            final(self).used() == old(self).used() + 1,
            final(self).max_slots() == old(self).max_slots(),
            old(self).consistent() && old(self).slots()[id as int] is None
                ==> final(self).consistent(),
            ports_distinct(old(self).slots()) && old(self).slots()[id as int] is None
                && !port_taken(old(self).slots(), port) ==> ports_distinct(final(self).slots()),
            old(self).slots()[id as int] is None && (forall|i: int|
                !serves(old(self).slots(), i, happening_id)) ==> first_serving(
                final(self).slots(),
                id as int,
                happening_id,
            ),
    {
        proof {
            if old(self).slots()[id as int] is None && (forall|i: int|
                !serves(old(self).slots(), i, happening_id)) {
                lemma_remove_undoes_add(
                    old(self).slots(),
                    id as int,
                    Server { port, happening_id, map_name, pid, password },
                );
            }
            if ports_distinct(old(self).slots()) && old(self).slots()[id as int] is None
                && !port_taken(old(self).slots(), port) {
                lemma_add_keeps_ports_distinct(
                    old(self).slots(),
                    id as int,
                    Server { port, happening_id, map_name, pid, password },
                );
            }
        }
        proof {
            lemma_occupied_count_update(
                self.servers@,
                id as int,
                Some((Server { port, happening_id, map_name, pid, password })),
            );
            lemma_occupied_count_bound(
                self.servers@.update(
                    id as int,
                    Some((Server { port, happening_id, map_name, pid, password })),
                ),
            );
        }
        self.in_use = self.in_use + 1;
        self.servers.set(id, Some(Server { port, happening_id, map_name, pid, password }));
    }

    /// Takes out the server of the first slot that serves `happening_id`,
    /// frees that slot and counts it off. With no such slot nothing changes.
    pub fn remove_server(&mut self, happening_id: usize) -> (res: Option<Server>)
        requires
            old(self).wf(),
        ensures
            final(self).wf(),
            final(self).max_slots() == old(self).max_slots(),
            match res {
                None => {
                    &&& forall|i: int| !serves(old(self).slots(), i, happening_id)
                    &&& final(self).slots() == old(self).slots()
                    &&& final(self).used() == old(self).used()
                },
                Some(s) => exists|i: int|
                    {
                        &&& first_serving(old(self).slots(), i, happening_id)
                        &&& old(self).slots()[i] == Some(s)
                        &&& final(self).slots() == old(self).slots().update(i, None)
                        &&& final(self).used() == old(self).used() - 1
                    },
            },
            old(self).consistent() ==> final(self).consistent(),
            ports_distinct(old(self).slots()) ==> ports_distinct(final(self).slots()),
    {
        let mut i: usize = 0;
        while i < self.servers.len()
            invariant
                i <= self.servers@.len(),
                self.servers@ == old(self).servers@,
                self.in_use == old(self).in_use,
                self.max == old(self).max,
                occupied_count(self.servers@) <= self.in_use,
                self.servers@.len() == self.max,
                forall|j: int| 0 <= j < i ==> !serves(self.servers@, j, happening_id),
            decreases self.servers@.len() - i,
        {
            let found = match &self.servers[i] {
                Some(server) => server.happening_id == happening_id,
                None => false,
            };
            if found {
                proof {
                    lemma_occupied_count_update(self.servers@, i as int, None);
                }
                let ghost before = self.servers@;
                let mut taken: Option<Server> = None;
                std::mem::swap(&mut taken, &mut self.servers[i]);
                assert(self.servers@ =~= before.update(i as int, None));
                proof {
                    if ports_distinct(before) {
                        lemma_remove_keeps_ports_distinct(before, i as int);
                    }
                }
                self.in_use = self.in_use - 1;
                assert(first_serving(old(self).slots(), i as int, happening_id));
                assert(old(self).slots()[i as int] == taken);
                return taken;
            }
            i += 1;
        }
        None
    }

    /// Reads the machine again and reports its memory together with every
    /// running server, in slot order. The table does not change.
    pub fn stats(&mut self) -> (st: Stats)
        ensures
            final(self).slots() == old(self).slots(),
            final(self).used() == old(self).used(),
            final(self).max_slots() == old(self).max_slots(),
            final(self).wf() == old(self).wf(),
            st.happenings@ == happenings_of(old(self).slots()),
    {
        system_refresh_all(&mut self.sys);
        let total_memory = system_total_memory(&self.sys);
        let free_memory = system_free_memory(&self.sys);
        self.stats_with(total_memory, free_memory)
    }

    /// The given machine figures together with every running server, in slot
    /// order.
    pub fn stats_with(&self, total_memory: u64, free_memory: u64) -> (st: Stats)
        ensures
            st.system == (SystemStats { total_memory, free_memory }),
            st.happenings@ == happenings_of(self.slots()),
    {
        let mut happenings: Vec<SystemHappening> = Vec::new();
        let mut i: usize = 0;
        while i < self.servers.len()
            invariant
                i <= self.servers@.len(),
                happenings@ == happenings_of(self.servers@.take(i as int)),
            decreases self.servers@.len() - i,
        {
            assert(self.servers@.take(i + 1).drop_last() =~= self.servers@.take(i as int));
            if let Some(srv) = &self.servers[i] {
                happenings.push(
                    SystemHappening {
                        pid: srv.pid,
                        map_name: srv.map_name.clone(),
                        port: srv.port,
                        password: srv.password.clone(),
                    },
                );
            }
            i += 1;
        }
        assert(self.servers@.take(self.servers@.len() as int) =~= self.servers@);
        Stats { system: SystemStats { total_memory, free_memory }, happenings }
    }

    /// Whether some slot runs a server for `happening_id`.
    pub fn serves_happening(&self, happening_id: usize) -> (res: bool)
        ensures
            res == exists|i: int| serves(self.slots(), i, happening_id),
    {
        let mut i: usize = 0;
        while i < self.servers.len()
            invariant
                i <= self.servers@.len(),
                forall|j: int| 0 <= j < i ==> !serves(self.servers@, j, happening_id),
            decreases self.servers@.len() - i,
        {
            if let Some(srv) = &self.servers[i] {
                if srv.happening_id == happening_id {
                    assert(serves(self.slots(), i as int, happening_id));
                    return true;
                }
            }
            i += 1;
        }
        false
    }

    /// Usage figures: the counter and the number of slots.
    pub fn get_info(&self) -> (info: Info)
        ensures
            info.used == self.used(),
            info.max == self.max_slots(),
    {
        Info { used: self.in_use, max: self.max }
    }
}

/// Slots up to `k` of a table of free slots hold no server.
proof fn lemma_count_of_free(slots: Seq<Option<Server>>, k: int)
    requires
        0 <= k <= slots.len(),
        forall|j: int| 0 <= j < slots.len() ==> slots[j] is None,
    ensures
        occupied_count(slots.take(k)) == 0,
    decreases k,
{
    if k > 0 {
        lemma_count_of_free(slots, k - 1);
        assert(slots.take(k).drop_last() =~= slots.take(k - 1));
    }
}

} // verus!
