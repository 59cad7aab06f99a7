//! The peer connection manager: keeps at least a target number of outbound
//! sessions alive. It decides; the caller performs each action (asking an
//! address source, starting or polling sessions) and reports the outcome as
//! the next event.
use vstd::prelude::*;

verus! {

/// An outbound network endpoint; an IPv4 address is held IPv4-mapped.
#[derive(Clone, Copy, Debug, PartialEq, Eq, Structural)]
pub struct PeerAddress {
    pub ip: u128,
    pub port: u16,
}

/// Where a maintenance pass stands.
#[derive(Clone, Copy, Debug, PartialEq, Eq, Structural)]
pub enum Phase {
    /// Suspended until the next wakeup.
    Idle,
    /// Waiting for the local address source.
    AskedLocal,
    /// Waiting for a DNS seed lookup.
    AskedDns,
    /// Waiting for a session to be started.
    Starting,
    /// Waiting for the sessions to be polled.
    Polling,
    /// Every peer source is exhausted; nothing more happens.
    Exhausted,
}

/// What the caller reports back.
pub enum Event {
    /// A session or a timer woke the manager.
    Wakeup,
    /// The local address source gave one address, or none.
    LocalAddress(Option<PeerAddress>),
    /// A DNS seed lookup gave these addresses.
    DnsAddresses(Vec<PeerAddress>),
    /// The requested session was started.
    Started,
    /// Polling found the session at this pool index resolved (by a normal end
    /// or an error), or found none resolved.
    Polled(Option<usize>),
}

/// What the caller is to do next.
#[derive(Clone, Copy, Debug, PartialEq, Eq, Structural)]
pub enum Action {
    /// Ask the local address source for one address.
    AskLocal,
    /// Look up the DNS seeds.
    AskDns,
    /// Start a session to this address and append it to the pool.
    Start(PeerAddress),
    /// Poll every session without blocking, and report the first resolved.
    PollAll,
    /// Yield to the scheduler until the next wakeup.
    Wait,
    /// No peer source is left and no session is alive: a fatal condition.
    Exhausted,
}

/// The manager's state.
pub struct PoolView {
    pub min_connections: nat,
    /// The originating address of each live session, in pool order.
    pub pool: Seq<PeerAddress>,
    /// The addresses of the last DNS lookup that no session has used yet.
    pub dns: Seq<PeerAddress>,
    pub phase: Phase,
    /// The local source has given nothing during this pass.
    pub local_done: bool,
    /// A DNS lookup during this pass gave nothing.
    pub dns_dry: bool,
}

/// The position of the DNS address chosen by the random number `r`.
pub open spec fn pick_index(dns: Seq<PeerAddress>, r: u64) -> int
    recommends
        dns.len() > 0,
{
    (r as int) % (dns.len() as int)
}

/// The end of growth: fatal if the pool is empty, else poll the sessions.
pub open spec fn after_growth(s: PoolView) -> (PoolView, Action) {
    if s.pool.len() == 0 {
        (PoolView { phase: Phase::Exhausted, ..s }, Action::Exhausted)
    } else {
        (PoolView { phase: Phase::Polling, ..s }, Action::PollAll)
    }
}

/// One step of growth: below the target, the local source first, then a
/// random unused DNS address, which is used up; when none is left, a new DNS
/// lookup. Growth ends at the target, or when a lookup of this pass gave
/// nothing.
pub open spec fn grow(s: PoolView, r: u64) -> (PoolView, Action) {
    if s.pool.len() < s.min_connections {
        if !s.local_done {
            (PoolView { phase: Phase::AskedLocal, ..s }, Action::AskLocal)
        } else if s.dns.len() > 0 {
            let i = pick_index(s.dns, r);
            let a = s.dns[i];
            (PoolView { pool: s.pool.push(a), dns: s.dns.remove(i), phase: Phase::Starting, ..s }, Action::Start(a))
        } else if !s.dns_dry {
            (PoolView { phase: Phase::AskedDns, ..s }, Action::AskDns)
        } else {
            after_growth(s)
        }
    } else {
        after_growth(s)
    }
}

/// A new maintenance pass: both sources may be tried again.
pub open spec fn begin_pass(s: PoolView, r: u64) -> (PoolView, Action) {
    grow(PoolView { local_done: false, dns_dry: false, ..s }, r)
}

/// The state after event `e`, and the action asked for, where `r` is the
/// random number drawn for a DNS pick. An event that does not fit the phase
/// changes nothing and asks to wait.
pub open spec fn transition(s: PoolView, e: Event, r: u64) -> (PoolView, Action) {
    match (s.phase, e) {
        (Phase::Idle, Event::Wakeup) => begin_pass(s, r),
        (Phase::AskedLocal, Event::LocalAddress(Some(a))) => (
            PoolView { pool: s.pool.push(a), phase: Phase::Starting, ..s },
            Action::Start(a),
        ),
        (Phase::AskedLocal, Event::LocalAddress(None)) => grow(PoolView { local_done: true, ..s }, r),
        (Phase::AskedDns, Event::DnsAddresses(v)) => grow(PoolView { dns: v@, dns_dry: v@.len() == 0, ..s }, r),
        (Phase::Starting, Event::Started) => grow(s, r),
        (Phase::Polling, Event::Polled(Some(i))) => if i < s.pool.len() {
            begin_pass(PoolView { pool: s.pool.remove(i as int), ..s }, r)
        } else {
            (s, Action::Wait)
        },
        (Phase::Polling, Event::Polled(None)) => (PoolView { phase: Phase::Idle, ..s }, Action::Wait),
        _ => (s, Action::Wait),
    }
}

/// The reply of surroundings whose local address source gives `local`,
/// whose DNS lookups give `dns`, whose sessions start at once and stay up,
/// and which otherwise report a wakeup.
pub open spec fn steady_reply(a: Action, local: Option<PeerAddress>, dns: Vec<PeerAddress>) -> Event {
    match a {
        Action::AskLocal => Event::LocalAddress(local),
        Action::AskDns => Event::DnsAddresses(dns),
        Action::Start(_) => Event::Started,
        _ => Event::Wakeup,
    }
}

/// The state and action after `n` further rounds of action and reply with
/// those surroundings, where round `n` draws `rs(n)` and the local source
/// gives `local(n)`.
pub open spec fn run(
    s: PoolView,
    a: Action,
    local: spec_fn(nat) -> Option<PeerAddress>,
    dns: Vec<PeerAddress>,
    rs: spec_fn(nat) -> u64,
    n: nat,
) -> (PoolView, Action)
    decreases n,
{
    if n == 0 {
        (s, a)
    } else {
        let (t, b) = transition(s, steady_reply(a, local(n), dns), rs(n));
        run(t, b, local, dns, rs, (n - 1) as nat)
    }
}

/// A state and pending action on the way to a full pool, with those
/// surroundings, in a pass that began with `start_len` sessions.
pub open spec fn converging(s: PoolView, a: Action, dns: Vec<PeerAddress>, start_len: nat) -> bool {
    &&& s.min_connections > 0
    &&& dns@.len() > 0
    &&& !s.dns_dry
    &&& s.pool.len() >= start_len
    &&& match a {
        Action::PollAll => s.phase == Phase::Polling && s.pool.len() == max_len(s.min_connections, start_len),
        Action::Wait => s.phase == Phase::Polling && s.pool.len() == max_len(s.min_connections, start_len),
        Action::AskLocal => s.phase == Phase::AskedLocal && !s.local_done && s.pool.len() < s.min_connections,
        Action::AskDns => s.phase == Phase::AskedDns && s.local_done && s.dns.len() == 0
            && s.pool.len() < s.min_connections,
        Action::Start(_) => s.phase == Phase::Starting && start_len < s.pool.len() <= s.min_connections,
        Action::Exhausted => false,
    }
}

/// The larger of two sizes.
pub open spec fn max_len(a: nat, b: nat) -> nat {
    if a >= b { a } else { b }
}

/// How many rounds at most remain before the pool is full.
pub open spec fn rounds_left(s: PoolView, a: Action) -> nat {
    match a {
        Action::AskLocal => (3 * (s.min_connections - s.pool.len()) + 1) as nat,
        Action::AskDns => (3 * (s.min_connections - s.pool.len())) as nat,
        Action::Start(_) => (3 * (s.min_connections - s.pool.len()) + if s.local_done { 1int } else { 2int }) as nat,
        _ => 0,
    }
}

proof fn lemma_converging_step(s: PoolView, a: Action, l: Option<PeerAddress>, dns: Vec<PeerAddress>, start_len: nat, r: u64)
    requires
        converging(s, a, dns, start_len),
    ensures
        converging(
            transition(s, steady_reply(a, l, dns), r).0,
            transition(s, steady_reply(a, l, dns), r).1,
            dns,
            start_len,
        ),
        rounds_left(s, a) > 0 ==> rounds_left(
            transition(s, steady_reply(a, l, dns), r).0,
            transition(s, steady_reply(a, l, dns), r).1,
        ) < rounds_left(s, a),
        rounds_left(s, a) == 0 ==> transition(s, steady_reply(a, l, dns), r) == (s, Action::Wait),
        transition(s, steady_reply(a, l, dns), r).0.min_connections == s.min_connections,
{
}

proof fn lemma_run_converges(
    s: PoolView,
    a: Action,
    local: spec_fn(nat) -> Option<PeerAddress>,
    dns: Vec<PeerAddress>,
    rs: spec_fn(nat) -> u64,
    n: nat,
    start_len: nat,
)
    requires
        converging(s, a, dns, start_len),
        n >= rounds_left(s, a),
    ensures
        converging(run(s, a, local, dns, rs, n).0, run(s, a, local, dns, rs, n).1, dns, start_len),
        rounds_left(run(s, a, local, dns, rs, n).0, run(s, a, local, dns, rs, n).1) == 0,
        run(s, a, local, dns, rs, n).0.min_connections == s.min_connections,
    decreases n,
{
    if n > 0 {
        lemma_converging_step(s, a, local(n), dns, start_len, rs(n));
        let (t, b) = transition(s, steady_reply(a, local(n), dns), rs(n));
        lemma_run_converges(t, b, local, dns, rs, (n - 1) as nat, start_len);
    }
}

/// With a positive target `k`, DNS lookups that always give at least one
/// address, sessions that stay up and a local source that gives anything, a
/// pass begun at a wakeup with `p` sessions reaches a pool of exactly the
/// larger of `k` and `p` sessions within `3 * k + 1` rounds, and then polls
/// it and waits, with the pool unchanged.
pub proof fn lemma_pool_converges(
    s: PoolView,
    local: spec_fn(nat) -> Option<PeerAddress>,
    dns: Vec<PeerAddress>,
    rs: spec_fn(nat) -> u64,
    n: nat,
)
    requires
        s.phase == Phase::Idle,
        s.min_connections > 0,
        dns@.len() > 0,
        n >= 3 * s.min_connections + 1,
    ensures
        ({
            let (t, a) = transition(s, Event::Wakeup, rs(0));
            let (u, b) = run(t, a, local, dns, rs, n);
            &&& u.phase == Phase::Polling
            &&& u.pool.len() == max_len(s.min_connections, s.pool.len())
            &&& (b == Action::PollAll || b == Action::Wait)
        }),
{
    let (t, a) = transition(s, Event::Wakeup, rs(0));
    assert(converging(t, a, dns, s.pool.len()));
    assert(n >= rounds_left(t, a));
    lemma_run_converges(t, a, local, dns, rs, n, s.pool.len());
    let (u, b) = run(t, a, local, dns, rs, n);
    assert(converging(u, b, dns, s.pool.len()));
    assert(rounds_left(u, b) == 0);
    assert(b == Action::PollAll || b == Action::Wait);
    assert(u.min_connections == s.min_connections);
}

/// With the same surroundings, when polling finds a session resolved (by a
/// normal end or an error), the pass that follows removes it and starts new
/// sessions until the pool again holds the larger of `k` and the sessions
/// left, then polls and waits: the manager never gives up while DNS answers.
pub proof fn lemma_resolved_sessions_replaced(
    s: PoolView,
    i: usize,
    local: spec_fn(nat) -> Option<PeerAddress>,
    dns: Vec<PeerAddress>,
    rs: spec_fn(nat) -> u64,
    n: nat,
)
    requires
        s.phase == Phase::Polling,
        i < s.pool.len(),
        s.min_connections > 0,
        dns@.len() > 0,
        n >= 3 * s.min_connections + 1,
    ensures
        ({
            let (t, a) = transition(s, Event::Polled(Some(i)), rs(0));
            let (u, b) = run(t, a, local, dns, rs, n);
            &&& u.phase == Phase::Polling
            &&& u.pool.len() == max_len(s.min_connections, (s.pool.len() - 1) as nat)
            &&& (b == Action::PollAll || b == Action::Wait)
        }),
{
    let (t, a) = transition(s, Event::Polled(Some(i)), rs(0));
    let start_len = (s.pool.len() - 1) as nat;
    assert(converging(t, a, dns, start_len));
    assert(n >= rounds_left(t, a));
    lemma_run_converges(t, a, local, dns, rs, n, start_len);
    let (u, b) = run(t, a, local, dns, rs, n);
    assert(rounds_left(u, b) == 0);
    assert(u.min_connections == s.min_connections);
}

/// With an empty pool, a pass in which the local source and a DNS lookup
/// both give nothing ends in the fatal outcome, which is final: no later
/// event changes the state or asks for anything but waiting.
pub proof fn lemma_exhaustion_detected(s: PoolView, none: Vec<PeerAddress>, r1: u64, r2: u64, r3: u64, e: Event, r: u64)
    requires
        s.phase == Phase::Idle,
        s.pool.len() == 0,
        s.dns.len() == 0,
        none@.len() == 0,
    ensures
        ({
            let (s1, a1) = transition(s, Event::Wakeup, r1);
            let (s2, a2) = transition(s1, Event::LocalAddress(None), r2);
            let (s3, a3) = transition(s2, Event::DnsAddresses(none), r3);
            &&& s.min_connections == 0 ==> a1 == Action::Exhausted && s1.phase == Phase::Exhausted
            &&& s.min_connections > 0 ==> a1 == Action::AskLocal && a2 == Action::AskDns
                && a3 == Action::Exhausted && s3.phase == Phase::Exhausted
        }),
        ({
            let x = PoolView { phase: Phase::Exhausted, ..s };
            transition(x, e, r) == (x, Action::Wait)
        }),
{
}

/// Relies on rand's `thread_rng` and `RngCore::next_u64`: a random number,
/// of which nothing is promised.
#[verifier::external_body]
fn random_u64() -> (r: u64) {
    rand::RngCore::next_u64(&mut rand::thread_rng())
}

/// The node's adaptor to the peer network.
pub struct BitcoinAdaptor {}

impl BitcoinAdaptor {
    pub fn new() -> (r: BitcoinAdaptor) {
        BitcoinAdaptor {}
    }

    /// A supervisor whose pool holds one session per address of `peers`,
    /// duplicates kept, in that order, and that keeps at least
    /// `min_connections` sessions. The caller starts those sessions and then
    /// reports a wakeup.
    pub fn keep_connected(peers: Vec<PeerAddress>, min_connections: usize) -> (r: KeepConnected)
        ensures
            r@ == (PoolView {
                min_connections: min_connections as nat,
                pool: peers@,
                dns: Seq::empty(),
                phase: Phase::Idle,
                local_done: false,
                dns_dry: false,
            }),
    {
        KeepConnected {
            min_connections,
            pool: peers,
            dns: Vec::new(),
            phase: Phase::Idle,
            local_done: false,
            dns_dry: false,
        }
    }
}

/// The supervisor of the outbound sessions.
pub struct KeepConnected {
    min_connections: usize,
    pool: Vec<PeerAddress>,
    dns: Vec<PeerAddress>,
    phase: Phase,
    local_done: bool,
    dns_dry: bool,
}

impl View for KeepConnected {
    type V = PoolView;

    closed spec fn view(&self) -> PoolView {
        PoolView {
            min_connections: self.min_connections as nat,
            pool: self.pool@,
            dns: self.dns@,
            phase: self.phase,
            local_done: self.local_done,
            dns_dry: self.dns_dry,
        }
    }
}

impl KeepConnected {
    /// The originating addresses of the live sessions, in pool order.
    pub fn pool(&self) -> (r: &Vec<PeerAddress>)
        ensures
            r@ == self@.pool,
    {
        &self.pool
    }

    /// Where the current pass stands.
    pub fn phase(&self) -> (r: Phase)
        ensures
            r == self@.phase,
    {
        self.phase
    }

    fn after_growth(&mut self) -> (a: Action)
        ensures
            (final(self)@, a) == after_growth(old(self)@),
    {
        if self.pool.len() == 0 {
            self.phase = Phase::Exhausted;
            Action::Exhausted
        } else {
            self.phase = Phase::Polling;
            Action::PollAll
        }
    }

    fn grow(&mut self, r: u64) -> (a: Action)
        ensures
            (final(self)@, a) == grow(old(self)@, r),
    {
        if self.pool.len() < self.min_connections {
            if !self.local_done {
                self.phase = Phase::AskedLocal;
                Action::AskLocal
            } else if self.dns.len() > 0 {
                let i = (r % (self.dns.len() as u64)) as usize;
                let a = self.dns.remove(i);
                self.pool.push(a);
                self.phase = Phase::Starting;
                Action::Start(a)
            } else if !self.dns_dry {
                self.phase = Phase::AskedDns;
                Action::AskDns
            } else {
                self.after_growth()
            }
        } else {
            self.after_growth()
        }
    }

    fn begin_pass(&mut self, r: u64) -> (a: Action)
        ensures
            (final(self)@, a) == begin_pass(old(self)@, r),
    {
        self.local_done = false;
        self.dns_dry = false;
        self.grow(r)
    }

    /// Takes event `e` with `r` as the random number for a DNS pick, and
    /// returns the next action.
    pub fn step_with(&mut self, e: Event, r: u64) -> (a: Action)
        ensures
            (final(self)@, a) == transition(old(self)@, e, r),
    {
        match (self.phase, e) {
            (Phase::Idle, Event::Wakeup) => self.begin_pass(r),
            (Phase::AskedLocal, Event::LocalAddress(Some(a))) => {
                self.pool.push(a);
                self.phase = Phase::Starting;
                Action::Start(a)
            },
            (Phase::AskedLocal, Event::LocalAddress(None)) => {
                self.local_done = true;
                self.grow(r)
            },
            (Phase::AskedDns, Event::DnsAddresses(v)) => {
                self.dns_dry = v.len() == 0;
                self.dns = v;
                self.grow(r)
            },
            (Phase::Starting, Event::Started) => self.grow(r),
            (Phase::Polling, Event::Polled(Some(i))) => {
                if i < self.pool.len() {
                    self.pool.remove(i);
                    self.begin_pass(r)
                } else {
                    Action::Wait
                }
            },
            (Phase::Polling, Event::Polled(None)) => {
                self.phase = Phase::Idle;
                Action::Wait
            },
            _ => Action::Wait,
        }
    }

    /// Takes event `e` and returns the next action; a DNS pick is drawn at
    /// random.
    pub fn step(&mut self, e: Event) -> (a: Action)
        ensures
            exists|r: u64| (final(self)@, a) == #[trigger] transition(old(self)@, e, r),
    {
        let r = random_u64();
        self.step_with(e, r)
    }
}

} // verus!
