//! The scan over the whole port range, as a state machine.
//!
//! A `Scan` decides; its caller acts.  The caller asks `next_step` what to
//! do: start the probe of a port, wait for a probe that is under way, or
//! stop.  Each probe that ends is reported with `complete`.  The scan keeps
//! the state of every port and a `Limiter` that bounds how many probes are
//! under way at once.

use vstd::prelude::*;
use crate::limiter::Limiter;
use crate::limiter::PROBE_LIMIT;

verus! {

/// The number of ports of a host; they are numbered from 1 to this.
pub const PORT_COUNT: usize = 65535;

/// How long a single connection attempt may take, in seconds.
pub const PROBE_TIMEOUT_SECS: u64 = 1;

/// How one connection attempt ended.
#[derive(Clone, Copy, Debug, PartialEq, Eq, Structural)]
pub enum ProbeEvent {
    /// The connection was made within the time allowed.
    Connected,
    /// The attempt ended with an error of any kind.
    Failed,
    /// Nothing happened within the time allowed.
    TimedOut,
    /// The unit of work that made the attempt died before it could answer.
    Aborted,
}

/// What a scan records of a port.
#[derive(Clone, Copy, Debug, PartialEq, Eq, Structural)]
pub enum Outcome {
    Open,
    NotOpen,
}

/// Where a port stands in a scan.
#[derive(Clone, Copy, Debug, PartialEq, Eq, Structural)]
pub enum PortState {
    /// Its probe has not been started.
    Pending,
    /// Its probe is under way and holds a token.
    Probing,
    /// Its probe has ended.
    Resolved(Outcome),
}

/// What the caller of a scan is to do next.
#[derive(Clone, Copy, Debug, PartialEq, Eq, Structural)]
pub enum Step {
    /// Start the probe of this port; a token has been taken for it.
    Start(u16),
    /// Wait until a probe that is under way has ended, and report it.
    Wait,
    /// Every port has its outcome.
    Finished,
}

/// Why the end of a probe was not accepted.
#[derive(Clone, Copy, Debug, PartialEq, Eq, Structural)]
pub enum ScanError {
    /// Port 0 does not exist.
    NoSuchPort,
    /// The probe of the port was never started.
    NotStarted,
    /// The port has its outcome already.
    AlreadyResolved,
}

/// Only a connection that was made counts as open.  An error, a timeout and
/// a unit of work that died all count as not open.
pub open spec fn outcome_of(event: ProbeEvent) -> Outcome {
    match event {
        ProbeEvent::Connected => Outcome::Open,
        ProbeEvent::Failed => Outcome::NotOpen,
        ProbeEvent::TimedOut => Outcome::NotOpen,
        ProbeEvent::Aborted => Outcome::NotOpen,
    }
}

/// The number of ports whose probe is under way.
pub open spec fn count_probing(states: Seq<PortState>) -> nat
    decreases states.len(),
{
    if states.len() == 0 {
        0
    } else {
        count_probing(states.drop_last()) + if states.last() is Probing {
            1nat
        } else {
            0nat
        }
    }
}

/// The number of ports that have their outcome.
pub open spec fn count_resolved(states: Seq<PortState>) -> nat
    decreases states.len(),
{
    if states.len() == 0 {
        0
    } else {
        count_resolved(states.drop_last()) + if states.last() is Resolved {
            1nat
        } else {
            0nat
        }
    }
}

/// The ports that were found open, in ascending order.  `states[i]` is the
/// state of port `i + 1`.
pub open spec fn open_ports_of(states: Seq<PortState>) -> Seq<u16>
    decreases states.len(),
{
    if states.len() == 0 {
        Seq::empty()
    } else if states.last() == PortState::Resolved(Outcome::Open) {
        open_ports_of(states.drop_last()).push(states.len() as u16)
    } else {
        open_ports_of(states.drop_last())
    }
}

/// A scan as a mathematical value.
pub struct ScanView {
    /// How many probes may be under way at once.
    pub limit: nat,
    /// How many probes have been started; the next port is `started + 1`.
    pub started: nat,
    /// The state of each port; `states[i]` is that of port `i + 1`.
    pub states: Seq<PortState>,
}

impl ScanView {
    pub open spec fn in_flight(self) -> nat {
        count_probing(self.states)
    }

    pub open spec fn resolved(self) -> nat {
        count_resolved(self.states)
    }

    pub open spec fn state_of(self, port: int) -> PortState
        recommends
            1 <= port <= self.states.len(),
    {
        self.states[port - 1]
    }

    pub open spec fn finished(self) -> bool {
        self.started == PORT_COUNT && self.in_flight() == 0
    }

    pub open spec fn open_ports(self) -> Seq<u16> {
        open_ports_of(self.states)
    }

    /// Whether the probe of the next port can be started: a port is left
    /// and a token is free.
    pub open spec fn can_start(self) -> bool {
        self.started < PORT_COUNT && self.in_flight() < self.limit
    }

    /// The scan after the probe of the next port was started.
    pub open spec fn start(self) -> ScanView {
        ScanView {
            limit: self.limit,
            started: self.started + 1,
            states: self.states.update(self.started as int, PortState::Probing),
        }
    }

    /// Whether the end of the probe of `port` can be taken: that probe is
    /// under way.
    pub open spec fn can_complete(self, port: int) -> bool {
        1 <= port <= self.states.len() && self.state_of(port) is Probing
    }

    /// The scan after the probe of `port` ended with `event`.
    pub open spec fn complete(self, port: int, event: ProbeEvent) -> ScanView {
        ScanView {
            limit: self.limit,
            started: self.started,
            states: self.states.update(port - 1, PortState::Resolved(outcome_of(event))),
        }
    }

    /// What holds of a scan at every moment: there is a state for each port;
    /// ports are started in ascending order, so those below `started` are
    /// under way or resolved and the others are pending; each probe that
    /// was started is under way or has given one outcome; and no more probes
    /// are under way than the limit allows.
    pub open spec fn well_formed(self) -> bool {
        &&& self.limit >= 1
        &&& self.states.len() == PORT_COUNT
        &&& self.started <= PORT_COUNT
        &&& forall|i: int| 0 <= i < self.started ==> !(#[trigger] self.states[i] is Pending)
        &&& forall|i: int|
            self.started <= i < self.states.len() ==> #[trigger] self.states[i] is Pending
        &&& self.in_flight() + self.resolved() == self.started
        &&& self.in_flight() <= self.limit
    }
}

/// A scan that has started nothing.
pub open spec fn fresh(limit: nat) -> ScanView {
    ScanView {
        limit,
        started: 0,
        states: Seq::new(PORT_COUNT as nat, |i: int| PortState::Pending),
    }
}

proof fn lemma_count_update(states: Seq<PortState>, i: int, state: PortState)
    requires
        0 <= i < states.len(),
    ensures
        count_probing(states.update(i, state)) + (if states[i] is Probing {
            1nat
        } else {
            0nat
        }) == count_probing(states) + (if state is Probing {
            1nat
        } else {
            0nat
        }),
        count_resolved(states.update(i, state)) + (if states[i] is Resolved {
            1nat
        } else {
            0nat
        }) == count_resolved(states) + (if state is Resolved {
            1nat
        } else {
            0nat
        }),
    decreases states.len(),
{
    if i == states.len() - 1 {
        assert(states.update(i, state).drop_last() =~= states.drop_last());
    } else {
        lemma_count_update(states.drop_last(), i, state);
        assert(states.update(i, state).drop_last() =~= states.drop_last().update(i, state));
    }
}

proof fn lemma_count_none(states: Seq<PortState>)
    ensures
        count_probing(states) == 0 <==> forall|i: int|
            0 <= i < states.len() ==> !(#[trigger] states[i] is Probing),
    decreases states.len(),
{
    if states.len() > 0 {
        lemma_count_none(states.drop_last());
        if count_probing(states) == 0 {
            assert forall|i: int| 0 <= i < states.len() implies !(#[trigger] states[i]
                is Probing) by {
                if i < states.len() - 1 {
                    assert(states.drop_last()[i] == states[i]);
                }
            }
        }
        if forall|i: int| 0 <= i < states.len() ==> !(#[trigger] states[i] is Probing) {
            assert forall|i: int| 0 <= i < states.drop_last().len() implies !(
            #[trigger] states.drop_last()[i] is Probing) by {
                assert(states.drop_last()[i] == states[i]);
            }
            assert(!(states.last() is Probing));
        }
    }
}

proof fn lemma_count_pending(states: Seq<PortState>)
    requires
        forall|i: int| 0 <= i < states.len() ==> #[trigger] states[i] is Pending,
    ensures
        count_probing(states) == 0,
        count_resolved(states) == 0,
    decreases states.len(),
{
    if states.len() > 0 {
        assert forall|i: int| 0 <= i < states.drop_last().len() implies #[trigger] states.drop_last()[i]
            is Pending by {
            assert(states.drop_last()[i] == states[i]);
        }
        lemma_count_pending(states.drop_last());
    }
}

/// Maps what the network said of one attempt to what the scan records.
pub fn classify(event: ProbeEvent) -> (outcome: Outcome)
    ensures
        outcome == outcome_of(event),
{
    match event {
        ProbeEvent::Connected => Outcome::Open,
        _ => Outcome::NotOpen,
    }
}

/// The answer of one unit of work: the port where it is open, else nothing.
pub fn probe_result(port: u16, event: ProbeEvent) -> (found: Option<u16>)
    ensures
        found == if outcome_of(event) == Outcome::Open {
            Some(port)
        } else {
            None::<u16>
        },
{
    match classify(event) {
        Outcome::Open => Some(port),
        Outcome::NotOpen => None,
    }
}

pub struct Scan {
    gate: Limiter,
    states: Vec<PortState>,
    started: usize,
}

impl View for Scan {
    type V = ScanView;

    closed spec fn view(&self) -> ScanView {
        ScanView {
            limit: self.gate.limit(),
            started: self.started as nat,
            states: self.states@,
        }
    }
}

impl Scan {
    /// The scan is well formed as a value, and exactly one token is out for
    /// each probe that is under way.
    pub closed spec fn wf(&self) -> bool {
        &&& self@.well_formed()
        &&& self.gate.wf()
        &&& self.gate.held() == count_probing(self.states@)
    }

    fn build(limit: usize) -> (scan: Scan)
        requires
            limit >= 1,
        ensures
            scan.wf(),
            scan@ == fresh(limit as nat),
    {
        let mut states: Vec<PortState> = Vec::new();
        let mut i: usize = 0;
        while i < PORT_COUNT
            invariant
                i <= PORT_COUNT,
                states@ =~= Seq::new(i as nat, |k: int| PortState::Pending),
            decreases PORT_COUNT - i,
        {
            states.push(PortState::Pending);
            i = i + 1;
        }
        let scan = Scan { gate: Limiter::new(limit), states, started: 0 };
        proof {
            lemma_count_pending(scan.states@);
            assert(scan@.states =~= fresh(limit as nat).states);
        }
        scan
    }

    /// A scan of all ports with at most `PROBE_LIMIT` probes at once.
    pub fn new() -> (scan: Scan)
        ensures
            scan.wf(),
            scan@ == fresh(PROBE_LIMIT as nat),
    {
        Scan::build(PROBE_LIMIT)
    }

    /// A scan of all ports with at most `limit` probes at once.  With a limit
    /// of 0 no probe could ever start: there is no such scan.
    pub fn with_limit(limit: usize) -> (scan: Option<Scan>)
        ensures
            scan is Some <==> limit >= 1,
            scan is Some ==> scan.unwrap().wf() && scan.unwrap()@ == fresh(limit as nat),
    {
        if limit == 0 {
            None
        } else {
            Some(Scan::build(limit))
        }
    }

    /// How many probes may be under way at once.
    pub fn limit(&self) -> (n: usize)
        ensures
            n == self@.limit,
    {
        self.gate.capacity()
    }

    /// How many probes have been started.
    pub fn started(&self) -> (n: usize)
        ensures
            n == self@.started,
    {
        self.started
    }

    /// How many probes are under way, which is the number of tokens held.
    pub fn in_flight(&self) -> (n: usize)
        requires
            self.wf(),
        ensures
            n == self@.in_flight(),
            n <= self@.limit,
    {
        self.gate.in_use()
    }

    /// How many ports have their outcome: each probe that was started and
    /// is no longer under way has given exactly one.
    pub fn resolved(&self) -> (n: usize)
        requires
            self.wf(),
        ensures
            n == self@.resolved(),
            n == self@.started - self@.in_flight(),
    {
        self.started - self.gate.in_use()
    }

    /// Whether every port has its outcome.
    pub fn is_finished(&self) -> (done: bool)
        requires
            self.wf(),
        ensures
            done == self@.finished(),
            done <==> self@.resolved() == PORT_COUNT,
            done <==> forall|port: int|
                1 <= port <= PORT_COUNT ==> #[trigger] self@.state_of(port) is Resolved,
    {
        proof {
            lemma_all_resolved(self@);
        }
        self.started == PORT_COUNT && self.gate.in_use() == 0
    }

    /// The state of a port; port 0 has none.
    pub fn state_of(&self, port: u16) -> (state: Option<PortState>)
        requires
            self.wf(),
        ensures
            state == if port == 0 {
                None::<PortState>
            } else {
                Some(self@.state_of(port as int))
            },
    {
        if port == 0 {
            None
        } else {
            Some(self.states[(port - 1) as usize])
        }
    }

    /// Decides what to do next.  The next port is started when a port is
    /// left and a token is free.  Otherwise the caller waits, and then a
    /// probe is under way that it can wait for.  When every port has been
    /// started and no probe is under way, the scan is finished.
    pub fn next_step(&mut self) -> (step: Step)
        requires
            old(self).wf(),
        ensures
            final(self).wf(),
            final(self)@.limit == old(self)@.limit,
            match step {
                Step::Start(port) => {
                    &&& old(self)@.can_start()
                    &&& port == old(self)@.started + 1
                    &&& final(self)@ == old(self)@.start()
                    &&& final(self)@.in_flight() == old(self)@.in_flight() + 1
                    &&& final(self)@.resolved() == old(self)@.resolved()
                },
                Step::Wait => {
                    &&& final(self)@ == old(self)@
                    &&& !old(self)@.can_start()
                    &&& old(self)@.in_flight() > 0
                },
                Step::Finished => {
                    &&& final(self)@ == old(self)@
                    &&& old(self)@.finished()
                },
            },
    {
        if self.started < PORT_COUNT {
            if self.gate.try_acquire() {
                let index: usize = self.started;
                proof {
                    lemma_start(old(self)@);
                }
                self.states.set(index, PortState::Probing);
                self.started = index + 1;
                Step::Start((index + 1) as u16)
            } else {
                Step::Wait
            }
        } else if self.gate.in_use() > 0 {
            Step::Wait
        } else {
            Step::Finished
        }
    }

    /// Takes the end of the probe of `port`.  It is accepted exactly when
    /// that probe is under way.  Then its token is given back, whatever the
    /// event was, and the port has its outcome for good.  Otherwise nothing
    /// changes.
    pub fn complete(&mut self, port: u16, event: ProbeEvent) -> (result: Result<Outcome, ScanError>)
        requires
            old(self).wf(),
        ensures
            final(self).wf(),
            result is Ok <==> old(self)@.can_complete(port as int),
            match result {
                Ok(outcome) => {
                    &&& outcome == outcome_of(event)
                    &&& final(self)@ == old(self)@.complete(port as int, event)
                    &&& final(self)@.in_flight() == old(self)@.in_flight() - 1
                    &&& final(self)@.resolved() == old(self)@.resolved() + 1
                },
                Err(error) => {
                    &&& final(self)@ == old(self)@
                    &&& error == if port == 0 {
                        ScanError::NoSuchPort
                    } else if old(self)@.state_of(port as int) is Pending {
                        ScanError::NotStarted
                    } else {
                        ScanError::AlreadyResolved
                    }
                },
            },
    {
        if port == 0 {
            return Err(ScanError::NoSuchPort);
        }
        let index: usize = (port - 1) as usize;
        match self.states[index] {
            PortState::Pending => Err(ScanError::NotStarted),
            PortState::Resolved(_) => Err(ScanError::AlreadyResolved),
            PortState::Probing => {
                let outcome = classify(event);
                proof {
                    lemma_complete(old(self)@, port as int, event);
                }
                let released = self.gate.release();
                assert(released);
                self.states.set(index, PortState::Resolved(outcome));
                Ok(outcome)
            },
        }
    }

    /// The ports found open so far, in ascending order.
    pub fn open_ports(&self) -> (ports: Vec<u16>)
        requires
            self.wf(),
        ensures
            ports@ == self@.open_ports(),
    {
        let mut ports: Vec<u16> = Vec::new();
        let mut i: usize = 0;
        while i < PORT_COUNT
            invariant
                i <= PORT_COUNT,
                self.states@.len() == PORT_COUNT,
                ports@ == open_ports_of(self.states@.take(i as int)),
            decreases PORT_COUNT - i,
        {
            proof {
                assert(self.states@.take(i + 1).drop_last() =~= self.states@.take(i as int));
            }
            match self.states[i] {
                PortState::Resolved(Outcome::Open) => {
                    ports.push((i + 1) as u16);
                },
                _ => {},
            }
            i = i + 1;
        }
        proof {
            assert(self.states@.take(PORT_COUNT as int) =~= self.states@);
        }
        ports
    }
}

/// The states of the ports after a scan in which the probe of port `i + 1`
/// ended with `events[i]`.
pub open spec fn resolved_by(events: Seq<ProbeEvent>) -> Seq<PortState> {
    Seq::new(events.len(), |i: int| PortState::Resolved(outcome_of(events[i])))
}

/// Runs a whole scan against a table of endings: the probe of port `i + 1`
/// ends with `events[i]`.  Probes are started as the limit allows and ended
/// oldest first.  The table must have an ending for each port and the limit
/// must admit a probe; then the answer is the list of the ports whose probe
/// connected, in ascending order.
pub fn rehearse(limit: usize, events: &Vec<ProbeEvent>) -> (ports: Option<Vec<u16>>)
    ensures
        ports is Some <==> limit >= 1 && events@.len() == PORT_COUNT,
        ports is Some ==> ports.unwrap()@ == open_ports_of(resolved_by(events@)),
{
    if limit == 0 || events.len() != PORT_COUNT {
        return None;
    }
    let mut scan = Scan::build(limit);
    let mut ended: usize = 0;
    let mut done = false;
    while !done
        invariant
            scan.wf(),
            events@.len() == PORT_COUNT,
            ended <= scan@.started <= PORT_COUNT,
            forall|i: int|
                0 <= i < ended ==> #[trigger] scan@.states[i] == PortState::Resolved(
                    outcome_of(events@[i]),
                ),
            forall|i: int| ended <= i < scan@.started ==> #[trigger] scan@.states[i] is Probing,
            done ==> scan@.finished(),
        decreases 2 * PORT_COUNT - scan@.started - ended + (if done { 0int } else { 1int }),
    {
        proof {
            lemma_count_none(scan@.states);
        }
        match scan.next_step() {
            Step::Start(_) => {},
            Step::Wait => {
                assert(ended < scan@.started) by {
                    if ended == scan@.started {
                        assert forall|i: int| 0 <= i < scan@.states.len() implies !(
                        #[trigger] scan@.states[i] is Probing) by {
                            if i >= ended {
                                assert(scan@.states[i] is Pending);
                            }
                        }
                    }
                }
                assert(scan@.states[ended as int] is Probing);
                let result = scan.complete((ended + 1) as u16, events[ended]);
                assert(result is Ok);
                ended = ended + 1;
            },
            Step::Finished => {
                done = true;
            },
        }
    }
    proof {
        lemma_count_none(scan@.states);
        if ended < PORT_COUNT {
            assert(scan@.states[ended as int] is Probing);
        }
        assert(scan@.states =~= resolved_by(events@));
    }
    Some(scan.open_ports())
}

/// A scan is well formed at every moment; in particular no more probes are
/// under way than its limit allows.
pub proof fn lemma_scan_invariant(scan: Scan)
    requires
        scan.wf(),
    ensures
        scan@.well_formed(),
        scan@.in_flight() <= scan@.limit,
{
}

/// Starting a probe keeps a scan in good order.  It takes one token, and
/// this only where one is free.
pub proof fn lemma_start(scan: ScanView)
    requires
        scan.well_formed(),
        scan.can_start(),
    ensures
        scan.start().well_formed(),
        scan.start().in_flight() == scan.in_flight() + 1,
        scan.start().resolved() == scan.resolved(),
        scan.start().in_flight() <= scan.limit,
{
    lemma_count_update(scan.states, scan.started as int, PortState::Probing);
}

/// The end of a probe keeps a scan in good order.  Its token comes back
/// whatever the event was: a connection, an error, a timeout or a unit of
/// work that died.  And the port has one outcome more than before.
pub proof fn lemma_complete(scan: ScanView, port: int, event: ProbeEvent)
    requires
        scan.well_formed(),
        scan.can_complete(port),
    ensures
        scan.complete(port, event).well_formed(),
        scan.complete(port, event).in_flight() == scan.in_flight() - 1,
        scan.complete(port, event).resolved() == scan.resolved() + 1,
        scan.complete(port, event).state_of(port) == PortState::Resolved(outcome_of(event)),
{
    lemma_count_update(scan.states, port - 1, PortState::Resolved(outcome_of(event)));
}

/// An outcome is final.  Once a port is resolved, a second ending of its
/// probe is refused, and neither the start of another probe nor the end of
/// one changes what was recorded: no port is counted twice.
pub proof fn lemma_outcome_is_final(scan: ScanView, port: int, other: int, event: ProbeEvent)
    requires
        scan.well_formed(),
        1 <= port <= PORT_COUNT,
        scan.state_of(port) is Resolved,
    ensures
        !scan.can_complete(port),
        scan.can_start() ==> scan.start().state_of(port) == scan.state_of(port),
        scan.can_complete(other) ==> scan.complete(other, event).state_of(port) == scan.state_of(
            port,
        ),
{
    if scan.can_start() {
        assert(scan.states[port - 1] is Resolved);
        assert(port - 1 != scan.started) by {
            if port - 1 == scan.started {
                assert(scan.states[scan.started as int] is Pending);
            }
        }
    }
}

/// A scan is finished exactly when each of the ports has an outcome: none
/// is left out, none holds a token any more, and the outcomes are as many as
/// the ports.
pub proof fn lemma_all_resolved(scan: ScanView)
    requires
        scan.well_formed(),
    ensures
        scan.finished() <==> forall|port: int|
            1 <= port <= PORT_COUNT ==> #[trigger] scan.state_of(port) is Resolved,
        scan.finished() <==> scan.resolved() == PORT_COUNT,
        scan.resolved() <= scan.started,
{
    lemma_count_none(scan.states);
    if scan.finished() {
        assert forall|port: int| 1 <= port <= PORT_COUNT implies #[trigger] scan.state_of(
            port,
        ) is Resolved by {
            assert(!(scan.states[port - 1] is Pending));
            assert(!(scan.states[port - 1] is Probing));
        }
    }
    if forall|port: int| 1 <= port <= PORT_COUNT ==> #[trigger] scan.state_of(port) is Resolved {
        assert forall|i: int| 0 <= i < scan.states.len() implies !(#[trigger] scan.states[i]
            is Probing) by {
            assert(scan.state_of(i + 1) is Resolved);
        }
        if scan.started < PORT_COUNT {
            assert(scan.state_of(PORT_COUNT as int) is Resolved);
            assert(scan.states[PORT_COUNT - 1] is Pending);
        }
    }
}

/// The list of open ports holds each port once, in ascending order, and
/// holds a port exactly when the port was found open.
pub proof fn lemma_open_ports_exact(states: Seq<PortState>)
    requires
        states.len() <= PORT_COUNT,
    ensures
        forall|k: int|
            0 <= k < open_ports_of(states).len() ==> 1 <= #[trigger] open_ports_of(states)[k]
                <= states.len(),
        forall|j: int, k: int|
            0 <= j < k < open_ports_of(states).len() ==> open_ports_of(states)[j]
                < open_ports_of(states)[k],
        forall|i: int|
            0 <= i < states.len() ==> (open_ports_of(states).contains((i + 1) as u16)
                <==> #[trigger] states[i] == PortState::Resolved(Outcome::Open)),
    decreases states.len(),
{
    if states.len() > 0 {
        let front = states.drop_last();
        let rest = open_ports_of(front);
        let all = open_ports_of(states);
        lemma_open_ports_exact(front);
        let n = states.len() as u16;
        assert forall|i: int| 0 <= i < states.len() implies (all.contains((i + 1) as u16)
            <==> #[trigger] states[i] == PortState::Resolved(Outcome::Open)) by {
            let port = (i + 1) as u16;
            if i < states.len() - 1 {
                assert(front[i] == states[i]);
                if rest.contains(port) {
                    let k = choose|k: int| 0 <= k < rest.len() && rest[k] == port;
                    assert(all[k] == port);
                }
                if all.contains(port) {
                    let k = choose|k: int| 0 <= k < all.len() && all[k] == port;
                    if k < rest.len() {
                        assert(rest[k] == port);
                    }
                }
            } else {
                if states.last() == PortState::Resolved(Outcome::Open) {
                    assert(all[all.len() - 1] == n);
                } else {
                    if all.contains(port) {
                        let k = choose|k: int| 0 <= k < all.len() && all[k] == port;
                        assert(1 <= rest[k] <= front.len());
                    }
                }
            }
        }
    }
}

/// Two scans in which the same ports were found open give the same list of
/// open ports, whatever else differs between them.
pub proof fn lemma_open_ports_repeatable(a: Seq<PortState>, b: Seq<PortState>)
    requires
        a.len() == b.len(),
        forall|i: int|
            0 <= i < a.len() ==> (a[i] == PortState::Resolved(Outcome::Open) <==> b[i]
                == PortState::Resolved(Outcome::Open)),
    ensures
        open_ports_of(a) == open_ports_of(b),
    decreases a.len(),
{
    if a.len() > 0 {
        lemma_open_ports_repeatable(a.drop_last(), b.drop_last());
    }
}

} // verus!
