//! The sample dispatcher as a state machine: the caller performs each action
//! it asks for and hands back what happened.
use vstd::prelude::*;
use crate::lifecycle::State;

verus! {

/// Loop iterations between two statistics queries.
pub const GATHER_STATS_EVERY: u64 = 15;

/// What a non-blocking look at the lifecycle channel found.
#[derive(Debug, Clone, Copy, PartialEq, Eq, Structural)]
pub enum Poll {
    Empty,
    Message(State),
    Closed,
}

/// Why the dispatcher stopped.
#[derive(Debug, Clone, Copy, PartialEq, Eq, Structural)]
pub enum StopCause {
    /// A `Disconnected` signal was observed.
    Disconnected,
    /// The lifecycle channel closed.
    ChannelClosed,
    /// The camera source failed or ran out of frames.
    CameraDisconnected,
    /// The transport refused a sample.
    SubmitFailed,
}

/// What the dispatcher asks its caller to do next.
#[derive(Debug, Clone, Copy, PartialEq, Eq, Structural)]
pub enum Action {
    /// Block on the lifecycle channel until a signal arrives or it closes.
    AwaitLifecycle,
    /// Query transport statistics; a failure is ignored.
    QueryStats,
    /// Tick the frame clock and sleep as it says.
    Tick,
    /// Look at the lifecycle channel without blocking.
    PollLifecycle,
    /// Pull one sample from the camera source.
    PullSample,
    /// Stamp the pulled sample with the frame duration and submit it.
    Submit,
    /// Stop for good.
    Stop(StopCause),
}

/// What the caller observed while performing an action.
#[derive(Debug, Clone, Copy, PartialEq, Eq, Structural)]
pub enum Event {
    /// The blocking wait returned a signal, or `None` where the channel closed.
    Lifecycle(Option<State>),
    /// The statistics query finished, whatever its result.
    StatsQueried,
    /// The frame clock ticked and the sleep ended.
    Ticked,
    /// The non-blocking look at the lifecycle channel.
    Polled(Poll),
    /// The camera source returned a sample (`true`) or an error (`false`).
    SamplePulled(bool),
    /// The transport accepted the sample (`true`) or failed (`false`).
    Submitted(bool),
}

/// Whether statistics are queried in the iteration with 0-based index `n`.
pub open spec fn stats_due(n: nat) -> bool {
    n % (GATHER_STATS_EVERY as nat) == 0
}

/// First action of the iteration with 0-based index `n`.
pub open spec fn begin_iteration(n: nat) -> Action {
    if stats_due(n) { Action::QueryStats } else { Action::Tick }
}

/// Whether `e`, answering `pending`, starts a new loop iteration.
pub open spec fn starts_iteration(pending: Action, e: Event) -> bool {
    (pending == Action::AwaitLifecycle && e == Event::Lifecycle(Some(State::Connected)))
    || (pending == Action::Submit && e == Event::Submitted(true))
}

/// The action that follows `pending` when `e` answers it, `n` iterations
/// having started. An event that does not answer `pending` changes nothing.
pub open spec fn next_action(pending: Action, n: nat, e: Event) -> Action {
    if starts_iteration(pending, e) {
        begin_iteration(n)
    } else {
        match (pending, e) {
            (Action::AwaitLifecycle, Event::Lifecycle(Some(State::Disconnected))) =>
                Action::Stop(StopCause::Disconnected),
            (Action::AwaitLifecycle, Event::Lifecycle(None)) => Action::Stop(StopCause::ChannelClosed),
            (Action::QueryStats, Event::StatsQueried) => Action::Tick,
            (Action::Tick, Event::Ticked) => Action::PollLifecycle,
            (Action::PollLifecycle, Event::Polled(Poll::Empty)) => Action::PullSample,
            (Action::PollLifecycle, Event::Polled(Poll::Message(State::Connected))) => Action::PullSample,
            (Action::PollLifecycle, Event::Polled(Poll::Message(State::Disconnected))) =>
                Action::Stop(StopCause::Disconnected),
            (Action::PollLifecycle, Event::Polled(Poll::Closed)) => Action::Stop(StopCause::ChannelClosed),
            (Action::PullSample, Event::SamplePulled(false)) => Action::Stop(StopCause::CameraDisconnected),
            (Action::PullSample, Event::SamplePulled(true)) => Action::Submit,
            (Action::Submit, Event::Submitted(false)) => Action::Stop(StopCause::SubmitFailed),
            _ => pending,
        }
    }
}

/// Statistics are queried exactly once in every run of `GATHER_STATS_EVERY`
/// consecutive loop iterations, the first time in the very first iteration.
pub proof fn lemma_stats_cadence(n: nat)
    ensures
        begin_iteration(0) == Action::QueryStats,
        (begin_iteration(n) == Action::QueryStats) == (n % (GATHER_STATS_EVERY as nat) == 0),
        exists|j: nat| n <= j < n + GATHER_STATS_EVERY && #[trigger] stats_due(j),
        forall|j1: nat, j2: nat|
            n <= j1 < n + GATHER_STATS_EVERY && n <= j2 < n + GATHER_STATS_EVERY && #[trigger] stats_due(j1)
                && #[trigger] stats_due(j2) ==> j1 == j2,
{
    let every = GATHER_STATS_EVERY as nat;
    let r = n % every;
    let j: nat = if r == 0 { n } else { (n + (every - r)) as nat };
    assert(stats_due(j)) by {
        if r != 0 {
            vstd::arithmetic::div_mod::lemma_fundamental_div_mod(n as int, every as int);
            vstd::arithmetic::div_mod::lemma_mod_multiples_basic(n as int / every as int + 1, every as int);
            assert(j as int == (n as int / every as int + 1) * every as int) by (nonlinear_arith)
                requires
                    n as int == every as int * (n as int / every as int) + r as int,
                    j as int == n as int + every as int - r as int;
        }
    }
    assert forall|j1: nat, j2: nat|
        n <= j1 < n + GATHER_STATS_EVERY && n <= j2 < n + GATHER_STATS_EVERY && #[trigger] stats_due(j1)
            && #[trigger] stats_due(j2) implies j1 == j2 by {
        vstd::arithmetic::div_mod::lemma_fundamental_div_mod(j1 as int, every as int);
        vstd::arithmetic::div_mod::lemma_fundamental_div_mod(j2 as int, every as int);
        let q1 = j1 as int / every as int;
        let q2 = j2 as int / every as int;
        assert(q1 == q2) by (nonlinear_arith)
            requires
                j1 as int == every as int * q1,
                j2 as int == every as int * q2,
                n as int <= j1 < n as int + every as int,
                n as int <= j2 < n as int + every as int,
                every as int > 0;
    }
}

/// Once stopped, the dispatcher stays stopped whatever it is told, and starts
/// no further iteration.
pub proof fn lemma_stop_is_final(cause: StopCause, n: nat, e: Event)
    ensures
        next_action(Action::Stop(cause), n, e) == Action::Stop(cause),
        !starts_iteration(Action::Stop(cause), e),
{
}

/// A sample is only ever pulled right after the lifecycle channel was looked
/// at and found neither closed nor holding `Disconnected`.
pub proof fn lemma_pull_follows_poll(pending: Action, n: nat, e: Event)
    requires
        pending != Action::PullSample,
        next_action(pending, n, e) == Action::PullSample,
    ensures
        pending == Action::PollLifecycle,
        e == Event::Polled(Poll::Empty) || e == Event::Polled(Poll::Message(State::Connected)),
{
}

/// A connected signal while waiting starts the loop; a disconnected one or a
/// closed channel stops the dispatcher before it pulls any sample.
pub proof fn lemma_wait_for_connection(n: nat, signal: Option<State>)
    ensures
        signal == Some(State::Connected) ==> next_action(Action::AwaitLifecycle, n, Event::Lifecycle(signal))
            == begin_iteration(n),
        signal == Some(State::Disconnected) ==> next_action(Action::AwaitLifecycle, n, Event::Lifecycle(signal))
            == Action::Stop(StopCause::Disconnected),
        signal is None ==> next_action(Action::AwaitLifecycle, n, Event::Lifecycle(signal))
            == Action::Stop(StopCause::ChannelClosed),
{
}

/// The pending action and the count of started iterations after the
/// dispatcher, waiting on `pending` with `n` iterations started, takes `events`
/// in order.
pub open spec fn run_after(pending: Action, n: nat, events: Seq<Event>) -> (Action, nat)
    decreases events.len(),
{
    if events.len() == 0 {
        (pending, n)
    } else {
        let e = events[0];
        let n2 = if starts_iteration(pending, e) { n + 1 } else { n };
        run_after(next_action(pending, n, e), n2, events.drop_first())
    }
}

/// What the caller observes in one loop iteration where the lifecycle channel
/// stays empty and the camera and the transport succeed, starting from the
/// submission that ends the previous iteration (the iteration starting has
/// 0-based index `n`).
pub open spec fn smooth_iteration(n: nat) -> Seq<Event> {
    if stats_due(n) {
        seq![Event::Submitted(true), Event::StatsQueried, Event::Ticked, Event::Polled(Poll::Empty),
            Event::SamplePulled(true)]
    } else {
        seq![Event::Submitted(true), Event::Ticked, Event::Polled(Poll::Empty), Event::SamplePulled(true)]
    }
}

/// `m` smooth iterations in a row, the first with 0-based index `n`.
pub open spec fn smooth_iterations(n: nat, m: nat) -> Seq<Event>
    decreases m,
{
    if m == 0 {
        Seq::empty()
    } else {
        smooth_iteration(n) + smooth_iterations(n + 1, (m - 1) as nat)
    }
}

/// Taking two runs of events one after the other.
pub proof fn lemma_run_after_concat(pending: Action, n: nat, a: Seq<Event>, b: Seq<Event>)
    ensures
        run_after(pending, n, a + b) == run_after(run_after(pending, n, a).0, run_after(pending, n, a).1, b),
    decreases a.len(),
{
    if a.len() > 0 {
        let e = a[0];
        let n2 = if starts_iteration(pending, e) { n + 1 } else { n };
        assert((a + b).drop_first() =~= a.drop_first() + b);
        assert((a + b)[0] == e);
        lemma_run_after_concat(next_action(pending, n, e), n2, a.drop_first(), b);
    } else {
        assert(a + b =~= b);
    }
}

/// One smooth iteration starts a new iteration, whose first action is the
/// statistics query exactly when that iteration is due, and comes back to
/// submitting a freshly pulled sample.
pub proof fn lemma_smooth_iteration(n: nat)
    ensures
        run_after(Action::Submit, n, smooth_iteration(n)) == (Action::Submit, n + 1),
        run_after(Action::Submit, n, seq![Event::Submitted(true)]).0 == begin_iteration(n),
{
    let s = smooth_iteration(n);
    reveal_with_fuel(run_after, 6);
    if stats_due(n) {
        assert(s.drop_first() =~= seq![Event::StatsQueried, Event::Ticked, Event::Polled(Poll::Empty),
            Event::SamplePulled(true)]);
        assert(s.drop_first().drop_first() =~= seq![Event::Ticked, Event::Polled(Poll::Empty),
            Event::SamplePulled(true)]);
        assert(s.drop_first().drop_first().drop_first() =~= seq![Event::Polled(Poll::Empty),
            Event::SamplePulled(true)]);
        assert(s.drop_first().drop_first().drop_first().drop_first() =~= seq![Event::SamplePulled(true)]);
        assert(s.drop_first().drop_first().drop_first().drop_first().drop_first() =~= Seq::<Event>::empty());
    } else {
        assert(s.drop_first() =~= seq![Event::Ticked, Event::Polled(Poll::Empty), Event::SamplePulled(true)]);
        assert(s.drop_first().drop_first() =~= seq![Event::Polled(Poll::Empty), Event::SamplePulled(true)]);
        assert(s.drop_first().drop_first().drop_first() =~= seq![Event::SamplePulled(true)]);
        assert(s.drop_first().drop_first().drop_first().drop_first() =~= Seq::<Event>::empty());
    }
    assert(seq![Event::Submitted(true)].drop_first() =~= Seq::<Event>::empty());
}

/// Once connected, while the lifecycle channel stays empty and the camera and
/// the transport succeed, the dispatcher never stops: after any number `m` of
/// iterations it is back to submitting a pulled sample, with `m` more
/// iterations started.
pub proof fn lemma_smooth_run(n: nat, m: nat)
    ensures
        run_after(Action::Submit, n, smooth_iterations(n, m)) == (Action::Submit, n + m),
    decreases m,
{
    if m > 0 {
        lemma_run_after_concat(Action::Submit, n, smooth_iteration(n), smooth_iterations(n + 1, (m - 1) as nat));
        lemma_smooth_iteration(n);
        lemma_smooth_run(n + 1, (m - 1) as nat);
    }
}

/// Iterations left before the next statistics query, `n` having started.
pub open spec fn countdown(n: nat) -> int {
    (GATHER_STATS_EVERY as int - n as int % GATHER_STATS_EVERY as int) % GATHER_STATS_EVERY as int
}

/// The dispatcher: the action it waits on, and a countdown to the next
/// statistics query.
pub struct Dispatcher {
    pending: Action,
    gather_stats_in: u64,
    iterations: Ghost<nat>,
}

impl Dispatcher {
    /// The action whose outcome the dispatcher waits for.
    pub closed spec fn pending(&self) -> Action {
        self.pending
    }

    /// Loop iterations started so far.
    pub closed spec fn iterations(&self) -> nat {
        self.iterations@
    }

    pub closed spec fn wf(&self) -> bool {
        self.gather_stats_in as int == countdown(self.iterations@)
    }

    /// A dispatcher that first waits for the connection to come up.
    pub fn new() -> (r: Self)
        ensures
            r.wf(),
            r.pending() == Action::AwaitLifecycle,
            r.iterations() == 0,
    {
        Dispatcher { pending: Action::AwaitLifecycle, gather_stats_in: 0, iterations: Ghost(0) }
    }

    /// The action to perform now.
    pub fn action(&self) -> (r: Action)
        ensures
            r == self.pending(),
    {
        self.pending
    }

    /// Whether the dispatcher has stopped.
    pub fn is_stopped(&self) -> (r: bool)
        ensures
            r == self.pending() is Stop,
    {
        match self.pending {
            Action::Stop(_) => true,
            _ => false,
        }
    }

    fn begin(&mut self) -> (r: Action)
        requires
            old(self).wf(),
        ensures
            final(self).wf(),
            r == begin_iteration(old(self).iterations()),
            final(self).iterations() == old(self).iterations() + 1,
    {
        let ghost n = self.iterations@;
        let ghost every = GATHER_STATS_EVERY as int;
        self.iterations = Ghost(n + 1);
        if self.gather_stats_in == 0 {
            proof {
                assert(n as int % every == 0) by {
                    if n as int % every != 0 {
                        assert(0 < every - n as int % every < every);
                    }
                }
                vstd::arithmetic::div_mod::lemma_add_mod_noop(n as int, 1, every as int);
            }
            self.gather_stats_in = GATHER_STATS_EVERY - 1;
            Action::QueryStats
        } else {
            proof {
                assert(n as int % every != 0);
                vstd::arithmetic::div_mod::lemma_add_mod_noop(n as int, 1, every as int);
            }
            self.gather_stats_in = self.gather_stats_in - 1;
            Action::Tick
        }
    }

    /// Takes what happened while performing the pending action and returns the
    /// next action, which becomes pending.
    pub fn step(&mut self, e: Event) -> (r: Action)
        requires
            old(self).wf(),
        ensures
            final(self).wf(),
            r == next_action(old(self).pending(), old(self).iterations(), e),
            final(self).pending() == r,
            final(self).iterations() == old(self).iterations()
                + if starts_iteration(old(self).pending(), e) { 1nat } else { 0nat },
    {
        let next = match (self.pending, e) {
            (Action::AwaitLifecycle, Event::Lifecycle(Some(State::Connected))) => self.begin(),
            (Action::AwaitLifecycle, Event::Lifecycle(Some(State::Disconnected))) =>
                Action::Stop(StopCause::Disconnected),
            (Action::AwaitLifecycle, Event::Lifecycle(None)) => Action::Stop(StopCause::ChannelClosed),
            (Action::QueryStats, Event::StatsQueried) => Action::Tick,
            (Action::Tick, Event::Ticked) => Action::PollLifecycle,
            (Action::PollLifecycle, Event::Polled(Poll::Empty)) => Action::PullSample,
            (Action::PollLifecycle, Event::Polled(Poll::Message(State::Connected))) => Action::PullSample,
            (Action::PollLifecycle, Event::Polled(Poll::Message(State::Disconnected))) =>
                Action::Stop(StopCause::Disconnected),
            (Action::PollLifecycle, Event::Polled(Poll::Closed)) => Action::Stop(StopCause::ChannelClosed),
            (Action::PullSample, Event::SamplePulled(true)) => Action::Submit,
            (Action::PullSample, Event::SamplePulled(false)) => Action::Stop(StopCause::CameraDisconnected),
            (Action::Submit, Event::Submitted(true)) => self.begin(),
            (Action::Submit, Event::Submitted(false)) => Action::Stop(StopCause::SubmitFailed),
            _ => self.pending,
        };
        self.pending = next;
        next
    }
}

} // verus!
