//! The subscribe worker: one peer that collects the samples of a round and
//! reports them.
//!
//! The worker is a state machine. [`subscribe_worker`] takes the worker and
//! the event that just happened, and gives the worker's next state and the
//! action to perform. The caller performs the action and hands back the event
//! that ended it, until the action is [`SubscribeAction::Finish`] or
//! [`SubscribeAction::Abort`].

use crate::clock::{time_until, wait_until};
use crate::fault::Fault;
use vstd::prelude::*;

verus! {

/// What one subscribe worker is asked to do.
#[derive(Clone, Copy, Debug, PartialEq, Eq)]
pub struct SubscribePlan {
    /// The instant at which the round starts. A worker that starts later
    /// than this reports an empty sequence and leaves.
    pub start_until: u64,
    /// The instant at which the collection ends.
    pub timeout: u64,
    /// The peer on whose behalf the worker reports.
    pub peer_id: usize,
    /// Whether the worker opens, and closes, a session of its own.
    pub multipeer_mode: bool,
    /// The number of samples after which the collection ends.
    pub total_msg_num: usize,
}

/// Where a subscribe worker stands.
#[derive(Clone, Copy, Debug, PartialEq, Eq)]
pub enum SubscribePhase {
    /// Not started yet.
    Idle,
    /// Started too late; the warning is being recorded.
    Late,
    /// Started too late; the empty report is being sent.
    ReportingLate,
    /// The worker's own session is being opened.
    Opening,
    /// The subscription is being declared.
    Subscribing,
    /// Samples are awaited, in a race with the deadline.
    Collecting,
    /// The report is being sent.
    Reporting,
    /// The worker's own session is being closed.
    Closing,
    /// The worker has finished.
    Done,
    /// The worker has aborted.
    Failed,
}

/// What happened since the last action.
#[derive(Debug, PartialEq, Eq)]
pub enum SubscribeEvent<T> {
    /// The worker was started, at the instant `now`.
    Started { now: u64 },
    /// The warning was recorded.
    Warned,
    /// The worker's own session is open.
    Opened,
    /// The subscription stands; it is `now`.
    Subscribed { now: u64 },
    /// A sample arrived before the deadline.
    Sample(T),
    /// The deadline passed before another sample arrived.
    Deadline,
    /// The stream of samples ended.
    StreamEnded,
    /// The report was sent.
    Sent,
    /// The worker's own session is closed.
    Closed,
    /// The action failed.
    Failed,
}

/// What the caller is to do next.
#[derive(Debug, PartialEq, Eq)]
pub enum SubscribeAction<T> {
    /// Record the warning that the worker started after the round's start.
    WarnLateStart,
    /// Open a session for this worker alone.
    Open,
    /// Declare the subscription, to the pattern that `topic::subscribe_key`
    /// gives.
    Subscribe,
    /// Arm a timer of `wait` nanoseconds (zero: it has fired already), then
    /// await the next sample or the timer, whichever comes first.
    Collect { wait: u64 },
    /// Await the next sample or the timer that is already armed.
    Next,
    /// Send `(peer_id, samples)` to the aggregator.
    Send { peer_id: usize, samples: Vec<T> },
    /// Close the worker's own session.
    Close,
    /// Return: the worker is done.
    Finish,
    /// Give up.
    Abort(Fault),
}

/// A subscribe worker as the contracts see it.
pub ghost struct SubscribeModel<T> {
    pub plan: SubscribePlan,
    pub phase: SubscribePhase,
    /// The samples collected and not yet reported, in the order of arrival.
    pub collected: Seq<T>,
}

/// An action as the contracts see it.
pub ghost enum SubscribeOrder<T> {
    WarnLateStart,
    Open,
    Subscribe,
    Collect { wait: u64 },
    Next,
    Send { peer_id: usize, samples: Seq<T> },
    Close,
    Finish,
    Abort(Fault),
}

impl<T> View for SubscribeAction<T> {
    type V = SubscribeOrder<T>;

    open spec fn view(&self) -> SubscribeOrder<T> {
        match *self {
            SubscribeAction::WarnLateStart => SubscribeOrder::WarnLateStart,
            SubscribeAction::Open => SubscribeOrder::Open,
            SubscribeAction::Subscribe => SubscribeOrder::Subscribe,
            SubscribeAction::Collect { wait } => SubscribeOrder::Collect { wait },
            SubscribeAction::Next => SubscribeOrder::Next,
            SubscribeAction::Send { peer_id, samples } => SubscribeOrder::Send {
                peer_id,
                samples: samples@,
            },
            SubscribeAction::Close => SubscribeOrder::Close,
            SubscribeAction::Finish => SubscribeOrder::Finish,
            SubscribeAction::Abort(fault) => SubscribeOrder::Abort(fault),
        }
    }
}

impl<T> SubscribeModel<T> {
    /// The same worker in another phase.
    pub open spec fn at(self, phase: SubscribePhase) -> Self {
        SubscribeModel { phase, ..self }
    }

    /// The worker once its samples have been handed over for sending.
    pub open spec fn reporting(self) -> Self {
        SubscribeModel { phase: SubscribePhase::Reporting, collected: Seq::empty(), ..self }
    }

    /// The worker without the samples it held.
    pub open spec fn dropped(self) -> Self {
        SubscribeModel { collected: Seq::empty(), ..self }
    }

    /// Whether the worker has finished or aborted.
    pub open spec fn ended(self) -> bool {
        self.phase == SubscribePhase::Done || self.phase == SubscribePhase::Failed
    }

    /// What every worker satisfies: samples are held only while they are
    /// collected, and then fewer than the plan asks for.
    pub open spec fn well_formed(self) -> bool {
        if self.phase == SubscribePhase::Collecting {
            self.collected.len() < self.plan.total_msg_num
        } else {
            self.collected.len() == 0
        }
    }
}

/// A worker that has not started.
pub open spec fn subscribe_start<T>(plan: SubscribePlan) -> SubscribeModel<T> {
    SubscribeModel { plan, phase: SubscribePhase::Idle, collected: Seq::empty() }
}

/// The report of `samples` on behalf of the plan's peer.
pub open spec fn report_of<T>(plan: SubscribePlan, samples: Seq<T>) -> SubscribeOrder<T> {
    SubscribeOrder::Send { peer_id: plan.peer_id, samples }
}

/// The transition of a subscribe worker: its next state and the action it
/// asks for.
///
/// * A worker started after `start_until` warns, reports no samples and
///   finishes; it neither opens a session nor subscribes.
/// * Otherwise it opens its own session in multi-peer mode, subscribes, and
///   collects until it holds `total_msg_num` samples, the deadline passes or
///   the stream ends, whichever comes first. The timer runs for the time left
///   until `timeout`, which is zero where `timeout` has passed.
/// * It reports the samples in the order of arrival, once, closes the session
///   it opened, and finishes.
/// * A failed action aborts the worker, and so does an event that its phase
///   does not expect. A worker that has ended stays as it is.
pub open spec fn subscribe_step<T>(w: SubscribeModel<T>, event: SubscribeEvent<T>) -> (
    SubscribeModel<T>,
    SubscribeOrder<T>,
) {
    if w.ended() {
        (w, SubscribeOrder::Abort(Fault::Unexpected))
    } else if event is Failed {
        (w.at(SubscribePhase::Failed).dropped(), SubscribeOrder::Abort(Fault::Transport))
    } else {
        match (w.phase, event) {
            (SubscribePhase::Idle, SubscribeEvent::Started { now }) => {
                if w.plan.start_until < now {
                    (w.at(SubscribePhase::Late), SubscribeOrder::WarnLateStart)
                } else if w.plan.multipeer_mode {
                    (w.at(SubscribePhase::Opening), SubscribeOrder::Open)
                } else {
                    (w.at(SubscribePhase::Subscribing), SubscribeOrder::Subscribe)
                }
            },
            (SubscribePhase::Late, SubscribeEvent::Warned) => (
                w.at(SubscribePhase::ReportingLate),
                report_of(w.plan, Seq::empty()),
            ),
            (SubscribePhase::ReportingLate, SubscribeEvent::Sent) => (
                w.at(SubscribePhase::Done),
                SubscribeOrder::Finish,
            ),
            (SubscribePhase::Opening, SubscribeEvent::Opened) => (
                w.at(SubscribePhase::Subscribing),
                SubscribeOrder::Subscribe,
            ),
            (SubscribePhase::Subscribing, SubscribeEvent::Subscribed { now }) => {
                if w.plan.total_msg_num == 0 {
                    (w.reporting(), report_of(w.plan, Seq::empty()))
                } else {
                    (
                        w.at(SubscribePhase::Collecting),
                        SubscribeOrder::Collect { wait: time_until(w.plan.timeout, now) },
                    )
                }
            },
            (SubscribePhase::Collecting, SubscribeEvent::Sample(sample)) => {
                if w.collected.len() + 1 >= w.plan.total_msg_num {
                    (w.reporting(), report_of(w.plan, w.collected.push(sample)))
                } else {
                    (
                        SubscribeModel { collected: w.collected.push(sample), ..w },
                        SubscribeOrder::Next,
                    )
                }
            },
            (SubscribePhase::Collecting, SubscribeEvent::Deadline) => (
                w.reporting(),
                report_of(w.plan, w.collected),
            ),
            (SubscribePhase::Collecting, SubscribeEvent::StreamEnded) => (
                w.reporting(),
                report_of(w.plan, w.collected),
            ),
            (SubscribePhase::Reporting, SubscribeEvent::Sent) => {
                if w.plan.multipeer_mode {
                    (w.at(SubscribePhase::Closing), SubscribeOrder::Close)
                } else {
                    (w.at(SubscribePhase::Done), SubscribeOrder::Finish)
                }
            },
            (SubscribePhase::Closing, SubscribeEvent::Closed) => (
                w.at(SubscribePhase::Done),
                SubscribeOrder::Finish,
            ),
            _ => (w.at(SubscribePhase::Failed).dropped(), SubscribeOrder::Abort(Fault::Unexpected)),
        }
    }
}

/// One subscribe worker. It holds its plan, its phase and the samples that
/// it has collected and not yet reported.
pub struct SubscribeWorker<T> {
    plan: SubscribePlan,
    phase: SubscribePhase,
    collected: Vec<T>,
}

impl<T> View for SubscribeWorker<T> {
    type V = SubscribeModel<T>;

    closed spec fn view(&self) -> SubscribeModel<T> {
        SubscribeModel { plan: self.plan, phase: self.phase, collected: self.collected@ }
    }
}

impl<T> SubscribeWorker<T> {
    #[verifier::type_invariant]
    spec fn holds_few(self) -> bool {
        self@.well_formed()
    }

    /// A worker for `plan` that has not started.
    pub fn new(plan: SubscribePlan) -> (worker: Self)
        ensures
            worker@ == subscribe_start::<T>(plan),
            worker@.well_formed(),
    {
        SubscribeWorker { plan, phase: SubscribePhase::Idle, collected: Vec::new() }
    }

    /// The plan that the worker follows.
    pub fn plan(&self) -> (plan: SubscribePlan)
        ensures
            plan == self@.plan,
    {
        self.plan
    }

    /// The phase in which the worker stands. Every worker is well formed.
    pub fn phase(&self) -> (phase: SubscribePhase)
        ensures
            phase == self@.phase,
            self@.well_formed(),
    {
        proof {
            use_type_invariant(self);
        }
        self.phase
    }

    /// The number of samples collected and not yet reported.
    pub fn collected(&self) -> (n: usize)
        ensures
            n == self@.collected.len(),
    {
        self.collected.len()
    }

}

/// Takes a subscribe worker one step further: `event` is what happened since
/// the last action, the result is the worker's next state and the action to
/// perform now.
pub fn subscribe_worker<T>(worker: SubscribeWorker<T>, event: SubscribeEvent<T>) -> (next: (
    SubscribeWorker<T>,
    SubscribeAction<T>,
))
    ensures
        (next.0@, next.1@) == subscribe_step(worker@, event),
        next.0@.well_formed(),
{
    proof {
        use_type_invariant(&worker);
    }
    let SubscribeWorker { plan, phase, collected } = worker;
    assert(phase != SubscribePhase::Collecting ==> collected@ =~= Seq::<T>::empty());
    let unexpected = SubscribeAction::Abort(Fault::Unexpected);
    match phase {
        SubscribePhase::Done | SubscribePhase::Failed => {
            return (SubscribeWorker { plan, phase, collected }, unexpected);
        },
        _ => {},
    }
    let failed = SubscribeWorker { plan, phase: SubscribePhase::Failed, collected: Vec::new() };
    if let SubscribeEvent::Failed = event {
        return (failed, SubscribeAction::Abort(Fault::Transport));
    }
    match (phase, event) {
        (SubscribePhase::Idle, SubscribeEvent::Started { now }) => {
            if plan.start_until < now {
                (SubscribeWorker { plan, phase: SubscribePhase::Late, collected }, SubscribeAction::WarnLateStart)
            } else if plan.multipeer_mode {
                (SubscribeWorker { plan, phase: SubscribePhase::Opening, collected }, SubscribeAction::Open)
            } else {
                (
                    SubscribeWorker { plan, phase: SubscribePhase::Subscribing, collected },
                    SubscribeAction::Subscribe,
                )
            }
        },
        (SubscribePhase::Late, SubscribeEvent::Warned) => (
            SubscribeWorker { plan, phase: SubscribePhase::ReportingLate, collected: Vec::new() },
            SubscribeAction::Send { peer_id: plan.peer_id, samples: collected },
        ),
        (SubscribePhase::ReportingLate, SubscribeEvent::Sent) => (
            SubscribeWorker { plan, phase: SubscribePhase::Done, collected },
            SubscribeAction::Finish,
        ),
        (SubscribePhase::Opening, SubscribeEvent::Opened) => (
            SubscribeWorker { plan, phase: SubscribePhase::Subscribing, collected },
            SubscribeAction::Subscribe,
        ),
        (SubscribePhase::Subscribing, SubscribeEvent::Subscribed { now }) => {
            if plan.total_msg_num == 0 {
                (
                    SubscribeWorker { plan, phase: SubscribePhase::Reporting, collected: Vec::new() },
                    SubscribeAction::Send { peer_id: plan.peer_id, samples: collected },
                )
            } else {
                (
                    SubscribeWorker { plan, phase: SubscribePhase::Collecting, collected },
                    SubscribeAction::Collect { wait: wait_until(plan.timeout, now) },
                )
            }
        },
        (SubscribePhase::Collecting, SubscribeEvent::Sample(sample)) => {
            let mut collected = collected;
            collected.push(sample);
            if collected.len() >= plan.total_msg_num {
                (
                    SubscribeWorker { plan, phase: SubscribePhase::Reporting, collected: Vec::new() },
                    SubscribeAction::Send { peer_id: plan.peer_id, samples: collected },
                )
            } else {
                (SubscribeWorker { plan, phase, collected }, SubscribeAction::Next)
            }
        },
        (SubscribePhase::Collecting, SubscribeEvent::Deadline) => (
            SubscribeWorker { plan, phase: SubscribePhase::Reporting, collected: Vec::new() },
            SubscribeAction::Send { peer_id: plan.peer_id, samples: collected },
        ),
        (SubscribePhase::Collecting, SubscribeEvent::StreamEnded) => (
            SubscribeWorker { plan, phase: SubscribePhase::Reporting, collected: Vec::new() },
            SubscribeAction::Send { peer_id: plan.peer_id, samples: collected },
        ),
        (SubscribePhase::Reporting, SubscribeEvent::Sent) => {
            if plan.multipeer_mode {
                (SubscribeWorker { plan, phase: SubscribePhase::Closing, collected }, SubscribeAction::Close)
            } else {
                (SubscribeWorker { plan, phase: SubscribePhase::Done, collected }, SubscribeAction::Finish)
            }
        },
        (SubscribePhase::Closing, SubscribeEvent::Closed) => (
            SubscribeWorker { plan, phase: SubscribePhase::Done, collected },
            SubscribeAction::Finish,
        ),
        _ => (failed, unexpected),
    }
}

/// The worker after `events` have happened to `w`, one after another.
pub open spec fn subscribe_run<T>(w: SubscribeModel<T>, events: Seq<SubscribeEvent<T>>) -> SubscribeModel<T>
    decreases events.len(),
{
    if events.len() == 0 {
        w
    } else {
        subscribe_step(subscribe_run(w, events.drop_last()), events.last()).0
    }
}

/// The actions that `w` asks for while `events` happen to it, one for each
/// event.
pub open spec fn subscribe_orders<T>(w: SubscribeModel<T>, events: Seq<SubscribeEvent<T>>) -> Seq<
    SubscribeOrder<T>,
>
    decreases events.len(),
{
    if events.len() == 0 {
        Seq::empty()
    } else {
        subscribe_orders(w, events.drop_last()).push(
            subscribe_step(subscribe_run(w, events.drop_last()), events.last()).1,
        )
    }
}

/// The number of reports among `orders`.
pub open spec fn reports_in<T>(orders: Seq<SubscribeOrder<T>>) -> nat
    decreases orders.len(),
{
    if orders.len() == 0 {
        0
    } else if orders.last() is Send {
        reports_in(orders.drop_last()) + 1
    } else {
        reports_in(orders.drop_last())
    }
}

/// The arrival of each of `samples`, in order.
pub open spec fn arrivals<T>(samples: Seq<T>) -> Seq<SubscribeEvent<T>> {
    Seq::new(samples.len(), |i: int| SubscribeEvent::Sample(samples[i]))
}

/// Whether a worker in `phase` has yet to send its report.
pub open spec fn report_pending(phase: SubscribePhase) -> bool {
    phase == SubscribePhase::Idle || phase == SubscribePhase::Late || phase
        == SubscribePhase::Opening || phase == SubscribePhase::Subscribing || phase
        == SubscribePhase::Collecting
}

/// Whether a worker in `phase` started too late, or has ended.
pub open spec fn past_subscribing(phase: SubscribePhase) -> bool {
    phase == SubscribePhase::Late || phase == SubscribePhase::ReportingLate || phase
        == SubscribePhase::Done || phase == SubscribePhase::Failed
}

/// A step keeps a worker well formed, and a report holds at most
/// `total_msg_num` samples, on behalf of the plan's peer.
pub proof fn lemma_step_well_formed<T>(w: SubscribeModel<T>, event: SubscribeEvent<T>)
    requires
        w.well_formed(),
    ensures
        subscribe_step(w, event).0.well_formed(),
        subscribe_step(w, event).0.plan == w.plan,
        subscribe_step(w, event).1 matches SubscribeOrder::Send { peer_id, samples } ==> peer_id
            == w.plan.peer_id && samples.len() <= w.plan.total_msg_num,
{
}

/// Whatever happens to a well-formed worker, it stays well formed and keeps
/// its plan.
pub proof fn lemma_run_well_formed<T>(w: SubscribeModel<T>, events: Seq<SubscribeEvent<T>>)
    requires
        w.well_formed(),
    ensures
        subscribe_run(w, events).well_formed(),
        subscribe_run(w, events).plan == w.plan,
        subscribe_orders(w, events).len() == events.len(),
    decreases events.len(),
{
    if events.len() > 0 {
        lemma_run_well_formed(w, events.drop_last());
        lemma_step_well_formed(subscribe_run(w, events.drop_last()), events.last());
    }
}

/// A worker that is started after `start_until` warns, reports the empty
/// sequence on behalf of its peer, and finishes.
pub proof fn lemma_late_start_reports_empty<T>(plan: SubscribePlan, now: u64)
    requires
        plan.start_until < now,
    ensures
        ({
            let (w1, a1) = subscribe_step(subscribe_start::<T>(plan), SubscribeEvent::Started { now });
            let (w2, a2) = subscribe_step(w1, SubscribeEvent::Warned);
            let (w3, a3) = subscribe_step(w2, SubscribeEvent::Sent);
            &&& a1 == SubscribeOrder::<T>::WarnLateStart
            &&& past_subscribing(w1.phase)
            &&& a2 == report_of(plan, Seq::<T>::empty())
            &&& a3 == SubscribeOrder::<T>::Finish
            &&& w3.phase == SubscribePhase::Done
        }),
{
}

/// A worker that started too late, or that has ended, neither opens a
/// session nor subscribes nor collects, whatever happens to it; where it
/// reports, it reports no samples.
pub proof fn lemma_late_worker_never_subscribes<T>(
    w: SubscribeModel<T>,
    events: Seq<SubscribeEvent<T>>,
    i: int,
)
    requires
        w.well_formed(),
        past_subscribing(w.phase),
        0 <= i < events.len(),
    ensures
        past_subscribing(subscribe_run(w, events).phase),
        !(subscribe_orders(w, events)[i] is Open),
        !(subscribe_orders(w, events)[i] is Subscribe),
        !(subscribe_orders(w, events)[i] is Collect),
        !(subscribe_orders(w, events)[i] is Next),
        !(subscribe_orders(w, events)[i] is Close),
        subscribe_orders(w, events)[i] matches SubscribeOrder::Send { samples, .. }
            ==> samples.len() == 0,
    decreases events.len(),
{
    let before = events.drop_last();
    lemma_run_well_formed(w, before);
    if before.len() > 0 {
        lemma_late_worker_never_subscribes(w, before, if i < before.len() { i } else { 0 });
    }
}

/// Where the deadline has passed when the subscription stands, the timer is
/// armed with a wait of zero, and when it fires the worker reports what it
/// holds by then.
pub proof fn lemma_passed_deadline_ends_collection<T>(w: SubscribeModel<T>, now: u64)
    requires
        w.well_formed(),
        w.phase == SubscribePhase::Subscribing,
        w.plan.total_msg_num > 0,
        w.plan.timeout <= now,
    ensures
        ({
            let (w1, a1) = subscribe_step(w, SubscribeEvent::Subscribed { now });
            let (w2, a2) = subscribe_step(w1, SubscribeEvent::Deadline);
            &&& a1 == SubscribeOrder::<T>::Collect { wait: 0 }
            &&& w1.phase == SubscribePhase::Collecting
            &&& a2 == report_of(w.plan, Seq::<T>::empty())
            &&& w2.phase == SubscribePhase::Reporting
        }),
{
    assert(w.collected =~= Seq::<T>::empty());
}

/// A collecting worker keeps the samples in the order of arrival and stops
/// at the one that completes `total_msg_num`: until then it asks for the
/// next sample, with that one it reports all of them.
pub proof fn lemma_collection_stops_at_limit<T>(w: SubscribeModel<T>, samples: Seq<T>)
    requires
        w.well_formed(),
        w.phase == SubscribePhase::Collecting,
        w.collected.len() + samples.len() <= w.plan.total_msg_num,
    ensures
        w.collected.len() + samples.len() < w.plan.total_msg_num ==> subscribe_run(
            w,
            arrivals(samples),
        ) == (SubscribeModel { collected: w.collected + samples, ..w }),
        w.collected.len() + samples.len() == w.plan.total_msg_num ==> subscribe_run(
            w,
            arrivals(samples),
        ) == w.reporting() && subscribe_orders(w, arrivals(samples)).last() == report_of(
            w.plan,
            w.collected + samples,
        ),
        forall|i: int|
            0 <= i < samples.len() && w.collected.len() + i + 1 < w.plan.total_msg_num
                ==> #[trigger] subscribe_orders(w, arrivals(samples))[i] == SubscribeOrder::<
                T,
            >::Next,
    decreases samples.len(),
{
    let events = arrivals(samples);
    if samples.len() == 0 {
        assert(w.collected + samples =~= w.collected);
    } else {
        let earlier = samples.drop_last();
        assert(events.drop_last() =~= arrivals(earlier));
        assert(events.last() == SubscribeEvent::Sample(samples.last()));
        lemma_collection_stops_at_limit(w, earlier);
        lemma_run_well_formed(w, arrivals(earlier));
        assert((w.collected + earlier).push(samples.last()) =~= w.collected + samples);
        assert forall|i: int|
            0 <= i < samples.len() && w.collected.len() + i + 1
                < w.plan.total_msg_num implies #[trigger] subscribe_orders(w, events)[i]
            == SubscribeOrder::<T>::Next by {
            if i < earlier.len() {
                assert(subscribe_orders(w, events)[i] == subscribe_orders(w, arrivals(earlier))[i]);
            }
        }
    }
}

/// A worker reports at most once, and one that is done has reported exactly
/// once.
pub proof fn lemma_reports_once<T>(plan: SubscribePlan, events: Seq<SubscribeEvent<T>>)
    ensures
        reports_in(subscribe_orders(subscribe_start(plan), events)) <= 1,
        report_pending(subscribe_run(subscribe_start(plan), events).phase) ==> reports_in(
            subscribe_orders(subscribe_start(plan), events),
        ) == 0,
        subscribe_run(subscribe_start(plan), events).phase == SubscribePhase::Done ==> reports_in(
            subscribe_orders(subscribe_start(plan), events),
        ) == 1,
    decreases events.len(),
{
    let start = subscribe_start::<T>(plan);
    if events.len() > 0 {
        let before = events.drop_last();
        lemma_reports_once(plan, before);
        lemma_run_well_formed(start, before);
        let orders = subscribe_orders(start, events);
        assert(orders.drop_last() =~= subscribe_orders(start, before));
        lemma_reported_phases(plan, before);
    }
}

/// A worker that is past its report and has not failed has reported.
proof fn lemma_reported_phases<T>(plan: SubscribePlan, events: Seq<SubscribeEvent<T>>)
    ensures
        ({
            let phase = subscribe_run(subscribe_start::<T>(plan), events).phase;
            !report_pending(phase) && phase != SubscribePhase::Failed ==> reports_in(
                subscribe_orders(subscribe_start::<T>(plan), events),
            ) >= 1
        }),
    decreases events.len(),
{
    let start = subscribe_start::<T>(plan);
    if events.len() > 0 {
        let before = events.drop_last();
        lemma_reported_phases(plan, before);
        lemma_run_well_formed(start, before);
        let orders = subscribe_orders(start, events);
        assert(orders.drop_last() =~= subscribe_orders(start, before));
    }
}

/// How often `orders` ask to open a session and to close one.
pub open spec fn sessions_in<T>(orders: Seq<SubscribeOrder<T>>) -> (nat, nat)
    decreases orders.len(),
{
    if orders.len() == 0 {
        (0, 0)
    } else {
        let (opened, closed) = sessions_in(orders.drop_last());
        match orders.last() {
            SubscribeOrder::Open => (opened + 1, closed),
            SubscribeOrder::Close => (opened, closed + 1),
            _ => (opened, closed),
        }
    }
}

/// A worker on a shared session neither opens nor closes a session, and
/// neither does one that started too late. A worker in multi-peer mode opens
/// at most one session, closes no other, and closes it after its report and
/// at most once; when it is done it has closed what it opened.
pub proof fn lemma_own_session_closed_once<T>(plan: SubscribePlan, events: Seq<SubscribeEvent<T>>)
    ensures
        ({
            let end = subscribe_run(subscribe_start(plan), events);
            let orders = subscribe_orders(subscribe_start(plan), events);
            let (opened, closed) = sessions_in(orders);
            let own: nat = if plan.multipeer_mode {
                1
            } else {
                0
            };
            &&& closed <= opened <= own
            &&& closed <= reports_in(orders)
            &&& end.phase == SubscribePhase::Idle || end.phase == SubscribePhase::Late || end.phase
                == SubscribePhase::ReportingLate ==> opened == 0
            &&& end.phase == SubscribePhase::Opening ==> opened == 1 && closed == 0
            &&& end.phase == SubscribePhase::Subscribing || end.phase == SubscribePhase::Collecting
                || end.phase == SubscribePhase::Reporting ==> opened == own && closed == 0
            &&& end.phase == SubscribePhase::Closing ==> opened == 1 && closed == 1
            &&& end.phase == SubscribePhase::Done ==> opened == closed
        }),
    decreases events.len(),
{
    let start = subscribe_start::<T>(plan);
    if events.len() > 0 {
        let before = events.drop_last();
        lemma_own_session_closed_once(plan, before);
        lemma_reported_phases(plan, before);
        lemma_reports_once(plan, before);
        lemma_run_well_formed(start, before);
        assert(subscribe_orders(start, events).drop_last() =~= subscribe_orders(start, before));
    }
}

} // verus!
