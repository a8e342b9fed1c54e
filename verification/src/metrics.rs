//! Metrics store for the Observatory dashboard: agent statuses, pipeline
//! traces and system snapshots, each with a dirty flag so that pollers only
//! fetch what changed. Traces and snapshots are kept in bounded ring buffers.
//!
//! The store is generic over the trace and snapshot records, which it only
//! stores and copies. Locking and broadcasting are left to the caller: every
//! recording operation returns the event to broadcast.

use vstd::prelude::*;
use vstd::string::*;
use crate::text::str_eq;
use std::collections::VecDeque;

verus! {

/// Ring buffer cap for pipeline traces.
pub const MAX_TRACES: usize = 200;

/// Ring buffer cap for system snapshots.
pub const MAX_SNAPSHOTS: usize = 300;

/// Configuration of the metrics HTTP server.
#[derive(Debug, Clone, Copy, PartialEq, Eq, Structural)]
pub struct ServerConfig {
    /// The TCP port the server listens on.
    pub port: u16,
}

/// A point in time of the system clock.
#[verifier::external_type_specification]
#[verifier::external_body]
pub struct ExSystemTime(std::time::SystemTime);

/// Calls `SystemTime::now`. Nothing is stated of the result: it is the
/// current time.
#[verifier::external_body]
fn system_time_now() -> (r: std::time::SystemTime) {
    std::time::SystemTime::now()
}

/// Calls `SystemTime::duration_since` with `UNIX_EPOCH`: the time elapsed
/// since the epoch, or `None` when `t` lies before it. Nothing is stated of
/// the result, which depends on the clock's value.
#[verifier::external_body]
fn elapsed_since_epoch(t: &std::time::SystemTime) -> (r: Option<std::time::Duration>) {
    t.duration_since(std::time::UNIX_EPOCH).ok()
}

/// Calls `Duration::as_millis`. Nothing is stated of the result (a
/// duration's value is not visible here).
#[verifier::external_body]
fn duration_millis(d: &std::time::Duration) -> (r: u128) {
    d.as_millis()
}

/// Current Unix time in milliseconds (0 when the clock is before the epoch;
/// truncated to 64 bits).
pub fn unix_ms() -> (r: u64) {
    let now = system_time_now();
    match elapsed_since_epoch(&now) {
        Some(d) => duration_millis(&d) as u64,
        None => 0,
    }
}

/// Node lifecycle state.
#[derive(Debug, Clone, Copy, PartialEq, Eq, Structural)]
pub enum AgentState {
    Offline,
    Idle,
    Active,
    Error,
}

impl Default for AgentState {
    fn default() -> (r: Self)
        ensures
            r == AgentState::Offline,
    {
        AgentState::Offline
    }
}

/// Single node status.
#[derive(Debug)]
pub struct AgentStatus {
    pub id: String,
    pub name: String,
    pub status: AgentState,
    pub last_seen_ms: u64,
}

/// The value of an agent status.
pub struct AgentView {
    pub id: Seq<char>,
    pub name: Seq<char>,
    pub status: AgentState,
    pub last_seen_ms: u64,
}

impl View for AgentStatus {
    type V = AgentView;

    open spec fn view(&self) -> AgentView {
        AgentView {
            id: self.id@,
            name: self.name@,
            status: self.status,
            last_seen_ms: self.last_seen_ms,
        }
    }
}

impl Clone for AgentStatus {
    fn clone(&self) -> (r: Self)
        ensures
            r@ == self@,
    {
        AgentStatus {
            id: self.id.clone(),
            name: self.name.clone(),
            status: self.status,
            last_seen_ms: self.last_seen_ms,
        }
    }
}

/// Event to broadcast to WebSocket subscribers.
pub enum MetricEvent<Tr, Sn> {
    AgentStatusChanged(AgentStatus),
    PipelineCompleted(Tr),
    SystemSnapshot(Sn),
}

/// The views of a sequence of agent statuses.
pub open spec fn agents_view(s: Seq<AgentStatus>) -> Seq<AgentView> {
    s.map_values(|a: AgentStatus| a@)
}

/// No identifier occurs twice.
pub open spec fn unique_ids(s: Seq<AgentView>) -> bool {
    forall|i: int, j: int| 0 <= i < s.len() && 0 <= j < s.len() && i != j ==> (#[trigger] s[i]).id != (#[trigger] s[j]).id
}

/// The agents after recording `a`: the status with the same identifier is
/// replaced, or `a` is added.
pub open spec fn record_spec(s: Seq<AgentView>, a: AgentView) -> Seq<AgentView> {
    if exists|i: int| 0 <= i < s.len() && (#[trigger] s[i]).id == a.id {
        s.update(choose|i: int| 0 <= i < s.len() && (#[trigger] s[i]).id == a.id, a)
    } else {
        s.push(a)
    }
}

/// The last `n` elements of `s` (all of them when there are fewer).
pub open spec fn last_n<T>(s: Seq<T>, n: int) -> Seq<T> {
    if s.len() <= n {
        s
    } else {
        s.subrange(s.len() - n, s.len() as int)
    }
}

/// The buffer after pushing `x` into a ring buffer capped at `cap`: when
/// full, the oldest element is evicted first.
pub open spec fn push_capped<T>(s: Seq<T>, x: T, cap: int) -> Seq<T> {
    if s.len() >= cap {
        s.drop_first().push(x)
    } else {
        s.push(x)
    }
}

/// The mathematical value of the store.
pub struct StoreView<Tr, Sn> {
    pub agents: Seq<AgentView>,
    pub traces: Seq<Tr>,
    pub snapshots: Seq<Sn>,
    pub agents_dirty: bool,
    pub traces_dirty: bool,
    pub snapshots_dirty: bool,
}

/// Metrics store with dirty tracking.
pub struct MetricsStore<Tr, Sn> {
    agents: Vec<AgentStatus>,
    traces: VecDeque<Tr>,
    snapshots: VecDeque<Sn>,
    agents_dirty: bool,
    traces_dirty: bool,
    snapshots_dirty: bool,
}

/// Recording an agent keeps identifiers unique, and the recorded status is
/// then the one listed under its identifier.
pub proof fn lemma_record_then_get(s: Seq<AgentView>, a: AgentView)
    requires
        unique_ids(s),
    ensures
        unique_ids(record_spec(s, a)),
        exists|i: int|
            0 <= i < record_spec(s, a).len() && record_spec(s, a)[i] == a && forall|j: int|
                0 <= j < record_spec(s, a).len() && j != i ==> (#[trigger] record_spec(s, a)[j]).id
                    != a.id,
        record_spec(s, a).len() == s.len() || record_spec(s, a).len() == s.len() + 1,
{
    let r = record_spec(s, a);
    if exists|i: int| 0 <= i < s.len() && (#[trigger] s[i]).id == a.id {
        let i = choose|i: int| 0 <= i < s.len() && (#[trigger] s[i]).id == a.id;
        assert(r[i] == a);
        assert forall|j: int| 0 <= j < r.len() && j != i implies (#[trigger] r[j]).id != a.id by {
            assert(r[j] == s[j]);
        }
    } else {
        assert(r[s.len() as int] == a);
        assert forall|j: int| 0 <= j < r.len() && j != s.len() implies (#[trigger] r[j]).id != a.id by {
            assert(r[j] == s[j]);
        }
    }
}

/// Pushing into a capped ring buffer never exceeds the cap, keeps the newest
/// element last, and evicts exactly the oldest ones.
pub proof fn lemma_push_capped<T>(s: Seq<T>, x: T, cap: int)
    requires
        cap > 0,
        s.len() <= cap,
    ensures
        push_capped(s, x, cap).len() <= cap,
        push_capped(s, x, cap).last() == x,
        push_capped(s, x, cap) == last_n(s.push(x), cap),
{
    let p = s.push(x);
    if s.len() >= cap {
        assert(push_capped(s, x, cap) =~= p.subrange(p.len() - cap, p.len() as int));
    }
}

/// The position of the agent with the given identifier.
fn agent_position(agents: &Vec<AgentStatus>, id: &str) -> (r: Option<usize>)
    ensures
        match r {
            Some(i) => i < agents@.len() && agents_view(agents@)[i as int].id == id@,
            None => !exists|k: int|
                0 <= k < agents@.len() && (#[trigger] agents_view(agents@)[k]).id == id@,
        },
{
    let ghost s = agents_view(agents@);
    let mut i: usize = 0;
    while i < agents.len()
        invariant
            s == agents_view(agents@),
            i <= agents.len(),
            forall|j: int| 0 <= j < i ==> (#[trigger] s[j]).id != id@,
        decreases agents.len() - i,
    {
        assert(s[i as int] == agents@[i as int]@);
        if str_eq(agents[i].id.as_str(), id) {
            return Some(i);
        }
        i = i + 1;
    }
    None
}

impl<Tr: Copy, Sn: Copy> MetricsStore<Tr, Sn> {
    /// The store as a mathematical value.
    pub closed spec fn sv(&self) -> StoreView<Tr, Sn> {
        StoreView {
            agents: agents_view(self.agents@),
            traces: self.traces@,
            snapshots: self.snapshots@,
            agents_dirty: self.agents_dirty,
            traces_dirty: self.traces_dirty,
            snapshots_dirty: self.snapshots_dirty,
        }
    }

    /// The store's invariant: unique agent identifiers and the ring caps.
    pub open spec fn wf(&self) -> bool {
        &&& unique_ids(self.sv().agents)
        &&& self.sv().traces.len() <= MAX_TRACES
        &&& self.sv().snapshots.len() <= MAX_SNAPSHOTS
    }

    pub fn new() -> (r: Self)
        ensures
            r.wf(),
            r.sv().agents == Seq::<AgentView>::empty(),
            r.sv().traces == Seq::<Tr>::empty(),
            r.sv().snapshots == Seq::<Sn>::empty(),
            !r.sv().agents_dirty,
            !r.sv().traces_dirty,
            !r.sv().snapshots_dirty,
    {
        let r = MetricsStore {
            agents: Vec::new(),
            traces: VecDeque::new(),
            snapshots: VecDeque::new(),
            agents_dirty: false,
            traces_dirty: false,
            snapshots_dirty: false,
        };
        assert(r.sv().agents =~= Seq::<AgentView>::empty());
        r
    }

    /// Records an agent status (replacing the one with the same identifier)
    /// and returns the event to broadcast.
    pub fn record_agent(&mut self, status: AgentStatus) -> (ev: MetricEvent<Tr, Sn>)
        requires
            old(self).wf(),
        ensures
            final(self).wf(),
            final(self).sv().agents == record_spec(old(self).sv().agents, status@),
            final(self).sv().agents_dirty,
            final(self).sv().traces == old(self).sv().traces,
            final(self).sv().snapshots == old(self).sv().snapshots,
            final(self).sv().traces_dirty == old(self).sv().traces_dirty,
            final(self).sv().snapshots_dirty == old(self).sv().snapshots_dirty,
            ev matches MetricEvent::AgentStatusChanged(a) && a@ == status@,
    {
        let ghost s = self.sv().agents;
        proof {
            lemma_record_then_get(s, status@);
        }
        let ev = MetricEvent::AgentStatusChanged(status.clone());
        match agent_position(&self.agents, status.id.as_str()) {
            Some(i) => {
                proof {
                    let c = choose|k: int| 0 <= k < s.len() && (#[trigger] s[k]).id == status@.id;
                    if c != i {
                        assert(s[c].id == s[i as int].id);
                    }
                }
                self.agents.set(i, status);
                assert(self.sv().agents =~= s.update(i as int, status@));
            },
            None => {
                self.agents.push(status);
                assert(self.sv().agents =~= s.push(status@));
            },
        }
        self.agents_dirty = true;
        ev
    }

    /// Appends a pipeline trace, evicting the oldest beyond the cap, and
    /// returns the event to broadcast.
    pub fn push_trace(&mut self, trace: Tr) -> (ev: MetricEvent<Tr, Sn>)
        requires
            old(self).wf(),
        ensures
            final(self).wf(),
            final(self).sv().traces == push_capped(old(self).sv().traces, trace, MAX_TRACES as int),
            final(self).sv().traces_dirty,
            final(self).sv().agents == old(self).sv().agents,
            final(self).sv().snapshots == old(self).sv().snapshots,
            final(self).sv().agents_dirty == old(self).sv().agents_dirty,
            final(self).sv().snapshots_dirty == old(self).sv().snapshots_dirty,
            ev == MetricEvent::<Tr, Sn>::PipelineCompleted(trace),
    {
        let ghost s = self.traces@;
        if self.traces.len() >= MAX_TRACES {
            self.traces.pop_front();
        }
        self.traces.push_back(trace);
        assert(self.traces@ =~= push_capped(s, trace, MAX_TRACES as int));
        self.traces_dirty = true;
        MetricEvent::PipelineCompleted(trace)
    }

    /// Appends a system snapshot, evicting the oldest beyond the cap, and
    /// returns the event to broadcast.
    pub fn push_snapshot(&mut self, snap: Sn) -> (ev: MetricEvent<Tr, Sn>)
        requires
            old(self).wf(),
        ensures
            final(self).wf(),
            final(self).sv().snapshots == push_capped(
                old(self).sv().snapshots,
                snap,
                MAX_SNAPSHOTS as int,
            ),
            final(self).sv().snapshots_dirty,
            final(self).sv().agents == old(self).sv().agents,
            final(self).sv().traces == old(self).sv().traces,
            final(self).sv().agents_dirty == old(self).sv().agents_dirty,
            final(self).sv().traces_dirty == old(self).sv().traces_dirty,
            ev == MetricEvent::<Tr, Sn>::SystemSnapshot(snap),
    {
        let ghost s = self.snapshots@;
        if self.snapshots.len() >= MAX_SNAPSHOTS {
            self.snapshots.pop_front();
        }
        self.snapshots.push_back(snap);
        assert(self.snapshots@ =~= push_capped(s, snap, MAX_SNAPSHOTS as int));
        self.snapshots_dirty = true;
        MetricEvent::SystemSnapshot(snap)
    }

    /// All agent statuses.
    pub fn get_agents(&self) -> (r: Vec<AgentStatus>)
        ensures
            agents_view(r@) == self.sv().agents,
    {
        let mut r: Vec<AgentStatus> = Vec::new();
        let mut i: usize = 0;
        while i < self.agents.len()
            invariant
                i <= self.agents.len(),
                agents_view(r@) == agents_view(self.agents@).take(i as int),
            decreases self.agents.len() - i,
        {
            let a = self.agents[i].clone();
            let ghost va = a@;
            assert(va == agents_view(self.agents@)[i as int]);
            let ghost r0 = r@;
            r.push(a);
            assert(r@ == r0.push(a));
            assert(agents_view(r@) =~= agents_view(r0).push(va));
            assert(agents_view(self.agents@).take(i + 1) =~= agents_view(self.agents@).take(
                i as int,
            ).push(va));
            i = i + 1;
            assert(agents_view(r@) =~= agents_view(self.agents@).take(i as int));
        }
        assert(agents_view(self.agents@).take(self.agents.len() as int) =~= agents_view(
            self.agents@,
        ));
        r
    }

    /// The status of the agent with the given identifier.
    pub fn get_agent(&self, id: &str) -> (r: Option<AgentStatus>)
        ensures
            match r {
                Some(a) => exists|i: int|
                    0 <= i < self.sv().agents.len() && self.sv().agents[i] == a@ && a@.id == id@,
                None => !exists|i: int|
                    0 <= i < self.sv().agents.len() && (#[trigger] self.sv().agents[i]).id == id@,
            },
    {
        match agent_position(&self.agents, id) {
            Some(i) => {
                let a = self.agents[i].clone();
                assert(a@ == self.sv().agents[i as int]);
                Some(a)
            },
            None => None,
        }
    }

    /// The agent statuses if they changed since the last take; clears the flag.
    pub fn take_agents_if_dirty(&mut self) -> (r: Option<Vec<AgentStatus>>)
        requires
            old(self).wf(),
        ensures
            final(self).wf(),
            final(self).sv() == take_agents_spec(old(self).sv()).0,
            take_agents_spec(old(self).sv()).1 == match r {
                Some(v) => Some(agents_view(v@)),
                None => None,
            },
    {
        if self.agents_dirty {
            self.agents_dirty = false;
            Some(self.get_agents())
        } else {
            None
        }
    }

    /// All traces, oldest first.
    pub fn all_traces(&self) -> (r: Vec<Tr>)
        ensures
            r@ == self.sv().traces,
    {
        let mut r: Vec<Tr> = Vec::new();
        let mut i: usize = 0;
        while i < self.traces.len()
            invariant
                i <= self.traces.len(),
                r@ == self.traces@.take(i as int),
            decreases self.traces.len() - i,
        {
            r.push(self.traces[i]);
            i = i + 1;
            assert(r@ =~= self.traces@.take(i as int));
        }
        assert(self.traces@.take(self.traces.len() as int) =~= self.traces@);
        r
    }

    /// The traces if they changed since the last take; clears the flag.
    pub fn take_traces_if_dirty(&mut self) -> (r: Option<Vec<Tr>>)
        requires
            old(self).wf(),
        ensures
            final(self).wf(),
            final(self).sv() == take_traces_spec(old(self).sv()).0,
            take_traces_spec(old(self).sv()).1 == match r {
                Some(v) => Some(v@),
                None => None,
            },
    {
        if self.traces_dirty {
            self.traces_dirty = false;
            Some(self.all_traces())
        } else {
            None
        }
    }

    /// The snapshots if they changed since the last take; clears the flag.
    pub fn take_snapshots_if_dirty(&mut self) -> (r: Option<Vec<Sn>>)
        requires
            old(self).wf(),
        ensures
            final(self).wf(),
            final(self).sv() == take_snapshots_spec(old(self).sv()).0,
            take_snapshots_spec(old(self).sv()).1 == match r {
                Some(v) => Some(v@),
                None => None,
            },
    {
        if self.snapshots_dirty {
            self.snapshots_dirty = false;
            let mut r: Vec<Sn> = Vec::new();
            let mut i: usize = 0;
            while i < self.snapshots.len()
                invariant
                    i <= self.snapshots.len(),
                    r@ == self.snapshots@.take(i as int),
                decreases self.snapshots.len() - i,
            {
                r.push(self.snapshots[i]);
                i = i + 1;
                assert(r@ =~= self.snapshots@.take(i as int));
            }
            assert(self.snapshots@.take(self.snapshots.len() as int) =~= self.snapshots@);
            Some(r)
        } else {
            None
        }
    }

    /// The newest snapshot, if any.
    pub fn get_latest_snapshot(&self) -> (r: Option<Sn>)
        ensures
            self.sv().snapshots.len() == 0 ==> r is None,
            self.sv().snapshots.len() > 0 ==> r == Some(self.sv().snapshots.last()),
    {
        if self.snapshots.len() == 0 {
            None
        } else {
            Some(self.snapshots[self.snapshots.len() - 1])
        }
    }

    /// The newest `n` traces, oldest first.
    pub fn get_traces(&self, n: usize) -> (r: Vec<Tr>)
        ensures
            r@ == last_n(self.sv().traces, n as int),
    {
        let len = self.traces.len();
        let start = if len > n {
            len - n
        } else {
            0
        };
        let mut r: Vec<Tr> = Vec::new();
        let mut i: usize = start;
        while i < len
            invariant
                len == self.traces@.len(),
                start <= i <= len,
                r@ == self.traces@.subrange(start as int, i as int),
            decreases len - i,
        {
            r.push(self.traces[i]);
            i = i + 1;
            assert(r@ =~= self.traces@.subrange(start as int, i as int));
        }
        assert(r@ =~= last_n(self.traces@, n as int));
        r
    }
}

/// What taking the agents does to the store, and what it returns.
pub open spec fn take_agents_spec<Tr, Sn>(v: StoreView<Tr, Sn>) -> (StoreView<Tr, Sn>, Option<
    Seq<AgentView>,
>) {
    if v.agents_dirty {
        (StoreView { agents_dirty: false, ..v }, Some(v.agents))
    } else {
        (v, None)
    }
}

/// What taking the traces does to the store, and what it returns.
pub open spec fn take_traces_spec<Tr, Sn>(v: StoreView<Tr, Sn>) -> (StoreView<Tr, Sn>, Option<
    Seq<Tr>,
>) {
    if v.traces_dirty {
        (StoreView { traces_dirty: false, ..v }, Some(v.traces))
    } else {
        (v, None)
    }
}

/// What taking the snapshots does to the store, and what it returns.
pub open spec fn take_snapshots_spec<Tr, Sn>(v: StoreView<Tr, Sn>) -> (StoreView<Tr, Sn>, Option<
    Seq<Sn>,
>) {
    if v.snapshots_dirty {
        (StoreView { snapshots_dirty: false, ..v }, Some(v.snapshots))
    } else {
        (v, None)
    }
}

/// The dirty flag is cleared on read: a take right after a take returns
/// nothing, for agents, traces and snapshots alike.
pub proof fn lemma_take_twice<Tr, Sn>(v: StoreView<Tr, Sn>)
    ensures
        take_agents_spec(take_agents_spec(v).0).1 is None,
        take_traces_spec(take_traces_spec(v).0).1 is None,
        take_snapshots_spec(take_snapshots_spec(v).0).1 is None,
{
}

/// A take returns what is stored, oldest first and in push order, exactly
/// when something changed since the last take; it only clears the flag.
pub proof fn lemma_take_returns_stored_order<Tr, Sn>(v: StoreView<Tr, Sn>)
    ensures
        v.agents_dirty ==> take_agents_spec(v).1 == Some(v.agents),
        !v.agents_dirty ==> take_agents_spec(v).1 is None,
        v.traces_dirty ==> take_traces_spec(v).1 == Some(v.traces),
        !v.traces_dirty ==> take_traces_spec(v).1 is None,
        v.snapshots_dirty ==> take_snapshots_spec(v).1 == Some(v.snapshots),
        !v.snapshots_dirty ==> take_snapshots_spec(v).1 is None,
        v.snapshots_dirty ==> forall|i: int|
            0 <= i < v.snapshots.len() ==> #[trigger] take_snapshots_spec(v).1->Some_0[i]
                == v.snapshots[i],
        v.traces_dirty ==> forall|i: int|
            0 <= i < v.traces.len() ==> #[trigger] take_traces_spec(v).1->Some_0[i] == v.traces[i],
        take_snapshots_spec(v).0.snapshots == v.snapshots,
        take_traces_spec(v).0.traces == v.traces,
        take_agents_spec(v).0.agents == v.agents,
{
}

/// Pushing `a` then `b` into an empty history and taking gives `[a, b]`:
/// the oldest first.
pub proof fn lemma_push_two_then_take<Tr, Sn>(v: StoreView<Tr, Sn>, a: Sn, b: Sn, x: Tr, y: Tr)
    requires
        v.snapshots.len() == 0,
        v.traces.len() == 0,
    ensures
        take_snapshots_spec(
            StoreView {
                snapshots: push_capped(
                    push_capped(v.snapshots, a, MAX_SNAPSHOTS as int),
                    b,
                    MAX_SNAPSHOTS as int,
                ),
                snapshots_dirty: true,
                ..v
            },
        ).1 == Some(seq![a, b]),
        take_traces_spec(
            StoreView {
                traces: push_capped(push_capped(v.traces, x, MAX_TRACES as int), y, MAX_TRACES as int),
                traces_dirty: true,
                ..v
            },
        ).1 == Some(seq![x, y]),
{
    assert(push_capped(push_capped(v.snapshots, a, MAX_SNAPSHOTS as int), b, MAX_SNAPSHOTS as int)
        =~= seq![a, b]);
    assert(push_capped(push_capped(v.traces, x, MAX_TRACES as int), y, MAX_TRACES as int) =~= seq![
        x,
        y,
    ]);
}

} // verus!
