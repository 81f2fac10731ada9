//! The publish worker: one peer that emits its quota of messages, or as many
//! of them as the round's deadline allows.
//!
//! The worker is a state machine. [`publish_worker`] takes the worker and the
//! event that just happened, and gives the worker's next state and the action
//! to perform. The caller performs the action and hands back the event that
//! ended it, until the action is [`PublishAction::Finish`] or
//! [`PublishAction::Abort`].

use crate::clock::{time_until, wait_until};
use crate::fault::Fault;
use vstd::prelude::*;

verus! {

/// What one publish worker is asked to do.
#[derive(Clone, Copy, Debug, PartialEq, Eq)]
pub struct PublishPlan {
    /// The instant at which the round starts: the worker sleeps until then.
    pub start_until: u64,
    /// The instant after which no further message is emitted.
    pub timeout: u64,
    /// The number of messages to emit.
    pub num_msgs_per_peer: usize,
    /// Whether the worker opens, and closes, a session of its own.
    pub multipeer_mode: bool,
}

/// Where a publish worker stands.
#[derive(Clone, Copy, Debug, PartialEq, Eq)]
pub enum PublishPhase {
    /// Not started yet.
    Idle,
    /// The worker's own session is being opened.
    Opening,
    /// The worker sleeps until the round starts.
    Waiting,
    /// A message is being published.
    Sending,
    /// The deadline was found passed before the quota was complete; the
    /// warning is being recorded.
    Overdue,
    /// The worker's own session is being closed.
    Closing,
    /// The worker has finished.
    Done,
    /// The worker has aborted.
    Failed,
}

/// What happened since the last action.
#[derive(Clone, Copy, Debug, PartialEq, Eq)]
pub enum PublishEvent {
    /// The worker was started, at the instant `now`.
    Started { now: u64 },
    /// The worker's own session is open; it is `now`.
    Opened { now: u64 },
    /// The sleep is over.
    Woke,
    /// The message was published; it is `now`.
    Published { now: u64 },
    /// The warning was recorded.
    Warned,
    /// The worker's own session is closed.
    Closed,
    /// The action failed.
    Failed,
}

/// What the caller is to do next.
#[derive(Clone, Copy, Debug, PartialEq, Eq)]
pub enum PublishAction {
    /// Open a session for this worker alone.
    Open,
    /// Sleep for `wait` nanoseconds.
    Sleep { wait: u64 },
    /// Publish one message, on the key that `topic::publish_key` gives.
    Publish,
    /// Record the warning that the deadline has passed before the quota was
    /// complete.
    WarnDeadline,
    /// Close the worker's own session.
    Close,
    /// Return: the worker is done. It has emitted `sent` messages, and
    /// `overdue` says whether the deadline stopped it before its quota was
    /// complete.
    Finish { sent: usize, overdue: bool },
    /// Give up.
    Abort(Fault),
}

/// A publish worker as the contracts see it.
pub ghost struct PublishModel {
    pub plan: PublishPlan,
    pub phase: PublishPhase,
    /// The number of messages published so far.
    pub sent: usize,
    /// Whether the deadline was found passed before the quota was complete.
    pub overdue: bool,
}

impl PublishModel {
    /// The same worker in another phase.
    pub open spec fn at(self, phase: PublishPhase) -> Self {
        PublishModel { phase, ..self }
    }

    /// Whether the worker has finished or aborted.
    pub open spec fn ended(self) -> bool {
        self.phase == PublishPhase::Done || self.phase == PublishPhase::Failed
    }

    /// What every worker satisfies: it never emits more than its quota, it
    /// emits nothing before it sends, while it sends the deadline has not
    /// been found passed, and a worker that the deadline stopped has emitted
    /// at least one message and fewer than its quota.
    pub open spec fn well_formed(self) -> bool {
        &&& self.sent <= self.plan.num_msgs_per_peer
        &&& self.overdue ==> 1 <= self.sent < self.plan.num_msgs_per_peer
        &&& self.phase == PublishPhase::Idle || self.phase == PublishPhase::Opening || self.phase
            == PublishPhase::Waiting ==> self.sent == 0
        &&& self.phase == PublishPhase::Sending ==> self.sent < self.plan.num_msgs_per_peer
            && !self.overdue
        &&& self.phase == PublishPhase::Overdue ==> self.overdue
    }

    /// The worker leaves: it closes the session it opened, or finishes.
    pub open spec fn wind_up(self) -> (PublishModel, PublishAction) {
        if self.plan.multipeer_mode {
            (self.at(PublishPhase::Closing), PublishAction::Close)
        } else {
            (self.at(PublishPhase::Done), self.finish())
        }
    }

    /// The action with which the worker finishes.
    pub open spec fn finish(self) -> PublishAction {
        PublishAction::Finish { sent: self.sent, overdue: self.overdue }
    }

    /// The worker turns to its messages: it publishes the first, or leaves
    /// where there is none to publish.
    pub open spec fn begin(self) -> (PublishModel, PublishAction) {
        if self.plan.num_msgs_per_peer == 0 {
            self.wind_up()
        } else {
            (self.at(PublishPhase::Sending), PublishAction::Publish)
        }
    }

    /// The worker looks at the clock before the round: it sleeps for the time
    /// left until `start_until`, or begins at once where none is left.
    pub open spec fn schedule(self, now: u64) -> (PublishModel, PublishAction) {
        if self.plan.start_until > now {
            (
                self.at(PublishPhase::Waiting),
                PublishAction::Sleep { wait: time_until(self.plan.start_until, now) },
            )
        } else {
            self.begin()
        }
    }

    /// The worker has published a message. After the last of its quota it
    /// leaves, whatever the time. After any other it looks at the clock:
    /// where the deadline has passed it warns and publishes no more, else it
    /// publishes the next message.
    pub open spec fn published(self, now: u64) -> (PublishModel, PublishAction) {
        let counted = PublishModel { sent: (self.sent + 1) as usize, ..self };
        if counted.sent >= self.plan.num_msgs_per_peer {
            counted.wind_up()
        } else if self.plan.timeout <= now {
            (
                PublishModel { phase: PublishPhase::Overdue, overdue: true, ..counted },
                PublishAction::WarnDeadline,
            )
        } else {
            (counted, PublishAction::Publish)
        }
    }
}

/// A worker that has not started.
pub open spec fn publish_start(plan: PublishPlan) -> PublishModel {
    PublishModel { plan, phase: PublishPhase::Idle, sent: 0, overdue: false }
}

/// The transition of a publish worker: its next state and the action it asks
/// for.
///
/// * In multi-peer mode the worker first opens a session of its own.
/// * It sleeps until `start_until` where that lies in the future.
/// * It publishes one message after another, up to its quota. After each
///   but the last it looks at the clock: where `timeout` has passed it warns
///   and publishes no more. A worker that has emitted its whole quota does
///   not warn.
/// * It closes the session it opened, and finishes.
/// * A failed action aborts the worker, and so does an event that its phase
///   does not expect. A worker that has ended stays as it is.
pub open spec fn publish_step(w: PublishModel, event: PublishEvent) -> (PublishModel, PublishAction) {
    if w.ended() {
        (w, PublishAction::Abort(Fault::Unexpected))
    } else if event is Failed {
        (w.at(PublishPhase::Failed), PublishAction::Abort(Fault::Transport))
    } else {
        match (w.phase, event) {
            (PublishPhase::Idle, PublishEvent::Started { now }) => {
                if w.plan.multipeer_mode {
                    (w.at(PublishPhase::Opening), PublishAction::Open)
                } else {
                    w.schedule(now)
                }
            },
            (PublishPhase::Opening, PublishEvent::Opened { now }) => w.schedule(now),
            (PublishPhase::Waiting, PublishEvent::Woke) => w.begin(),
            (PublishPhase::Sending, PublishEvent::Published { now }) => w.published(now),
            (PublishPhase::Overdue, PublishEvent::Warned) => w.wind_up(),
            (PublishPhase::Closing, PublishEvent::Closed) => (w.at(PublishPhase::Done), w.finish()),
            _ => (w.at(PublishPhase::Failed), PublishAction::Abort(Fault::Unexpected)),
        }
    }
}

/// One publish worker. It holds its plan, its phase and its count of
/// messages.
pub struct PublishWorker {
    plan: PublishPlan,
    phase: PublishPhase,
    sent: usize,
    overdue: bool,
}

impl View for PublishWorker {
    type V = PublishModel;

    closed spec fn view(&self) -> PublishModel {
        PublishModel { plan: self.plan, phase: self.phase, sent: self.sent, overdue: self.overdue }
    }
}

impl PublishWorker {
    #[verifier::type_invariant]
    spec fn within_quota(self) -> bool {
        self@.well_formed()
    }

    /// A worker for `plan` that has not started.
    pub fn new(plan: PublishPlan) -> (worker: Self)
        ensures
            worker@ == publish_start(plan),
            worker@.well_formed(),
    {
        PublishWorker { plan, phase: PublishPhase::Idle, sent: 0, overdue: false }
    }

    /// The plan that the worker follows.
    pub fn plan(&self) -> (plan: PublishPlan)
        ensures
            plan == self@.plan,
    {
        self.plan
    }

    /// The phase in which the worker stands. Every worker is well formed.
    pub fn phase(&self) -> (phase: PublishPhase)
        ensures
            phase == self@.phase,
            self@.well_formed(),
    {
        proof {
            use_type_invariant(self);
        }
        self.phase
    }

    /// The number of messages published so far.
    pub fn sent(&self) -> (sent: usize)
        ensures
            sent == self@.sent,
            sent <= self@.plan.num_msgs_per_peer,
    {
        proof {
            use_type_invariant(self);
        }
        self.sent
    }

    /// Whether the deadline was found passed before the quota was complete.
    pub fn overdue(&self) -> (overdue: bool)
        ensures
            overdue == self@.overdue,
    {
        self.overdue
    }

    fn fail(self) -> (failed: PublishWorker)
        ensures
            failed@ == self@.at(PublishPhase::Failed),
    {
        proof {
            use_type_invariant(&self);
        }
        let PublishWorker { plan, phase, sent, overdue } = self;
        PublishWorker { plan, phase: PublishPhase::Failed, sent, overdue }
    }

    fn wind_up(self) -> (next: (PublishWorker, PublishAction))
        requires
            !self@.ended(),
            self@.phase != PublishPhase::Sending,
        ensures
            (next.0@, next.1) == self@.wind_up(),
    {
        proof {
            use_type_invariant(&self);
        }
        let PublishWorker { plan, phase, sent, overdue } = self;
        if plan.multipeer_mode {
            (PublishWorker { plan, phase: PublishPhase::Closing, sent, overdue }, PublishAction::Close)
        } else {
            (
                PublishWorker { plan, phase: PublishPhase::Done, sent, overdue },
                PublishAction::Finish { sent, overdue },
            )
        }
    }

    fn begin(self) -> (next: (PublishWorker, PublishAction))
        requires
            self@.sent == 0,
            !self@.overdue,
            !self@.ended(),
            self@.phase != PublishPhase::Sending,
        ensures
            (next.0@, next.1) == self@.begin(),
    {
        if self.plan.num_msgs_per_peer == 0 {
            self.wind_up()
        } else {
            let PublishWorker { plan, phase, sent, overdue } = self;
            (PublishWorker { plan, phase: PublishPhase::Sending, sent, overdue }, PublishAction::Publish)
        }
    }

    fn schedule(self, now: u64) -> (next: (PublishWorker, PublishAction))
        requires
            self@.sent == 0,
            !self@.overdue,
            !self@.ended(),
            self@.phase != PublishPhase::Sending,
        ensures
            (next.0@, next.1) == self@.schedule(now),
    {
        if self.plan.start_until > now {
            let PublishWorker { plan, phase, sent, overdue } = self;
            (
                PublishWorker { plan, phase: PublishPhase::Waiting, sent, overdue },
                PublishAction::Sleep { wait: wait_until(plan.start_until, now) },
            )
        } else {
            self.begin()
        }
    }

    fn published(self, now: u64) -> (next: (PublishWorker, PublishAction))
        requires
            self@.phase == PublishPhase::Sending,
        ensures
            (next.0@, next.1) == self@.published(now),
    {
        proof {
            use_type_invariant(&self);
        }
        let PublishWorker { plan, phase, sent, overdue } = self;
        let sent: usize = sent + 1;
        if sent >= plan.num_msgs_per_peer {
            if plan.multipeer_mode {
                (PublishWorker { plan, phase: PublishPhase::Closing, sent, overdue }, PublishAction::Close)
            } else {
                (
                    PublishWorker { plan, phase: PublishPhase::Done, sent, overdue },
                    PublishAction::Finish { sent, overdue },
                )
            }
        } else if plan.timeout <= now {
            (
                PublishWorker { plan, phase: PublishPhase::Overdue, sent, overdue: true },
                PublishAction::WarnDeadline,
            )
        } else {
            (PublishWorker { plan, phase, sent, overdue }, PublishAction::Publish)
        }
    }
}

/// Takes a publish worker one step further: `event` is what happened since
/// the last action, the result is the worker's next state and the action to
/// perform now.
pub fn publish_worker(worker: PublishWorker, event: PublishEvent) -> (next: (PublishWorker, PublishAction))
    ensures
        (next.0@, next.1) == publish_step(worker@, event),
        next.0@.well_formed(),
{
    proof {
        use_type_invariant(&worker);
    }
    match worker.phase {
        PublishPhase::Done | PublishPhase::Failed => {
            return (worker, PublishAction::Abort(Fault::Unexpected));
        },
        _ => {},
    }
    let next = match (worker.phase, event) {
        (_, PublishEvent::Failed) => (worker.fail(), PublishAction::Abort(Fault::Transport)),
        (PublishPhase::Idle, PublishEvent::Started { now }) => {
            if worker.plan.multipeer_mode {
                let PublishWorker { plan, phase, sent, overdue } = worker;
                (PublishWorker { plan, phase: PublishPhase::Opening, sent, overdue }, PublishAction::Open)
            } else {
                worker.schedule(now)
            }
        },
        (PublishPhase::Opening, PublishEvent::Opened { now }) => worker.schedule(now),
        (PublishPhase::Waiting, PublishEvent::Woke) => worker.begin(),
        (PublishPhase::Sending, PublishEvent::Published { now }) => worker.published(now),
        (PublishPhase::Overdue, PublishEvent::Warned) => worker.wind_up(),
        (PublishPhase::Closing, PublishEvent::Closed) => {
            let PublishWorker { plan, phase, sent, overdue } = worker;
            (
                PublishWorker { plan, phase: PublishPhase::Done, sent, overdue },
                PublishAction::Finish { sent, overdue },
            )
        },
        _ => (worker.fail(), PublishAction::Abort(Fault::Unexpected)),
    };
    proof {
        lemma_step_well_formed(worker@, event);
    }
    next
}

/// A step keeps a worker well formed and its plan unchanged, and never takes
/// its count of messages back.
pub proof fn lemma_step_well_formed(w: PublishModel, event: PublishEvent)
    requires
        w.well_formed(),
    ensures
        publish_step(w, event).0.well_formed(),
        publish_step(w, event).0.plan == w.plan,
        publish_step(w, event).0.sent >= w.sent,
{
}

/// The worker after `events` have happened to `w`, one after another.
pub open spec fn publish_run(w: PublishModel, events: Seq<PublishEvent>) -> PublishModel
    decreases events.len(),
{
    if events.len() == 0 {
        w
    } else {
        publish_step(publish_run(w, events.drop_last()), events.last()).0
    }
}

/// The actions that `w` asks for while `events` happen to it, one for each
/// event.
pub open spec fn publish_orders(w: PublishModel, events: Seq<PublishEvent>) -> Seq<PublishAction>
    decreases events.len(),
{
    if events.len() == 0 {
        Seq::empty()
    } else {
        publish_orders(w, events.drop_last()).push(
            publish_step(publish_run(w, events.drop_last()), events.last()).1,
        )
    }
}

/// The number of messages that `orders` ask to publish.
pub open spec fn publishes_in(orders: Seq<PublishAction>) -> nat
    decreases orders.len(),
{
    if orders.len() == 0 {
        0
    } else if orders.last() is Publish {
        publishes_in(orders.drop_last()) + 1
    } else {
        publishes_in(orders.drop_last())
    }
}

/// Whether a worker in `phase` publishes no more.
pub open spec fn past_sending(phase: PublishPhase) -> bool {
    phase == PublishPhase::Overdue || phase == PublishPhase::Closing || phase == PublishPhase::Done
        || phase == PublishPhase::Failed
}

/// Whatever happens to a well-formed worker, it stays well formed, keeps its
/// plan and never takes its count of messages back.
pub proof fn lemma_run_well_formed(w: PublishModel, events: Seq<PublishEvent>)
    requires
        w.well_formed(),
    ensures
        publish_run(w, events).well_formed(),
        publish_run(w, events).plan == w.plan,
        publish_run(w, events).sent >= w.sent,
        publish_orders(w, events).len() == events.len(),
    decreases events.len(),
{
    if events.len() > 0 {
        lemma_run_well_formed(w, events.drop_last());
        lemma_step_well_formed(publish_run(w, events.drop_last()), events.last());
    }
}

/// Whatever happens, a worker is never asked to publish more messages than
/// its plan holds. It counts each message that was published: while one is
/// under way the count is one behind what was asked, and a worker that is
/// done has published every message that it was asked to.
pub proof fn lemma_publishes_within_quota(plan: PublishPlan, events: Seq<PublishEvent>)
    ensures
        ({
            let end = publish_run(publish_start(plan), events);
            let asked = publishes_in(publish_orders(publish_start(plan), events));
            &&& asked <= plan.num_msgs_per_peer
            &&& end.sent <= asked <= end.sent + 1
            &&& end.phase == PublishPhase::Sending ==> asked == end.sent + 1
            &&& end.phase != PublishPhase::Sending && end.phase != PublishPhase::Failed ==> asked
                == end.sent
        }),
    decreases events.len(),
{
    let start = publish_start(plan);
    if events.len() > 0 {
        let before = events.drop_last();
        lemma_publishes_within_quota(plan, before);
        lemma_run_well_formed(start, before);
        assert(publish_orders(start, events).drop_last() =~= publish_orders(start, before));
    }
}

/// Where the deadline is found passed after a message that is not the last
/// of the quota, the worker counts that message, warns, and then leaves as a
/// worker that is done: it closes the session it opened and finishes, with
/// `overdue` set and with strictly fewer messages than requested.
pub proof fn lemma_deadline_cuts_publishing(w: PublishModel, now: u64)
    requires
        w.well_formed(),
        w.phase == PublishPhase::Sending,
        w.sent + 1 < w.plan.num_msgs_per_peer,
        w.plan.timeout <= now,
    ensures
        ({
            let done = PublishAction::Finish { sent: (w.sent + 1) as usize, overdue: true };
            let (w1, a1) = publish_step(w, PublishEvent::Published { now });
            let (w2, a2) = publish_step(w1, PublishEvent::Warned);
            let (w3, a3) = publish_step(w2, PublishEvent::Closed);
            &&& a1 == PublishAction::WarnDeadline
            &&& w1.phase == PublishPhase::Overdue
            &&& w1.sent == w.sent + 1
            &&& w1.sent < w.plan.num_msgs_per_peer
            &&& !w.plan.multipeer_mode ==> a2 == done && w2.phase == PublishPhase::Done
            &&& w.plan.multipeer_mode ==> a2 == PublishAction::Close && a3 == done && w3.phase
                == PublishPhase::Done
        }),
{
}

/// The message that completes the quota ends the publishing without a
/// warning, whatever the time: the worker closes the session it opened and
/// finishes, with its whole quota emitted and `overdue` not set.
pub proof fn lemma_complete_quota_gives_no_warning(w: PublishModel, now: u64)
    requires
        w.well_formed(),
        w.phase == PublishPhase::Sending,
        w.sent + 1 == w.plan.num_msgs_per_peer,
    ensures
        ({
            let done = PublishAction::Finish { sent: w.plan.num_msgs_per_peer, overdue: false };
            let (w1, a1) = publish_step(w, PublishEvent::Published { now });
            let (w2, a2) = publish_step(w1, PublishEvent::Closed);
            &&& !w.plan.multipeer_mode ==> a1 == done && w1.phase == PublishPhase::Done
            &&& w.plan.multipeer_mode ==> a1 == PublishAction::Close && a2 == done && w2.phase
                == PublishPhase::Done
        }),
{
}

/// A worker that has found the deadline passed, or that is leaving or has
/// ended, is never again asked to open, sleep or publish, and its count of
/// messages stays as it is, whatever happens to it.
pub proof fn lemma_no_publish_after_deadline(w: PublishModel, events: Seq<PublishEvent>, i: int)
    requires
        w.well_formed(),
        past_sending(w.phase),
        0 <= i < events.len(),
    ensures
        past_sending(publish_run(w, events).phase),
        publish_run(w, events).sent == w.sent,
        publish_run(w, events).overdue == w.overdue,
        !(publish_orders(w, events)[i] is Publish),
        !(publish_orders(w, events)[i] is Open),
        !(publish_orders(w, events)[i] is Sleep),
        publish_orders(w, events)[i] matches PublishAction::Finish { sent, overdue } ==> sent
            == w.sent && overdue == w.overdue,
    decreases events.len(),
{
    let before = events.drop_last();
    lemma_run_well_formed(w, before);
    if before.len() > 0 {
        lemma_no_publish_after_deadline(w, before, if i < before.len() { i } else { 0 });
    }
}

/// The number of warnings among `orders`.
pub open spec fn warnings_in(orders: Seq<PublishAction>) -> nat
    decreases orders.len(),
{
    if orders.len() == 0 {
        0
    } else if orders.last() is WarnDeadline {
        warnings_in(orders.drop_last()) + 1
    } else {
        warnings_in(orders.drop_last())
    }
}

/// A worker that leaves or is done was stopped by the deadline if and only
/// if it has emitted fewer messages than its plan holds; one that was not
/// stopped has emitted its whole quota.
pub proof fn lemma_overdue_iff_short(plan: PublishPlan, events: Seq<PublishEvent>)
    ensures
        ({
            let end = publish_run(publish_start(plan), events);
            end.phase == PublishPhase::Closing || end.phase == PublishPhase::Done ==> (end.overdue
                <==> end.sent < plan.num_msgs_per_peer)
        }),
    decreases events.len(),
{
    let start = publish_start(plan);
    lemma_run_well_formed(start, events);
    if events.len() > 0 {
        let before = events.drop_last();
        lemma_overdue_iff_short(plan, before);
        lemma_run_well_formed(start, before);
    }
}

/// The warning is recorded if and only if the deadline stopped the worker:
/// a worker was asked to warn once where it is overdue, and never where it
/// is not. So a worker that is done has warned if and only if it has emitted
/// fewer messages than its plan holds.
pub proof fn lemma_warns_iff_overdue(plan: PublishPlan, events: Seq<PublishEvent>)
    ensures
        ({
            let end = publish_run(publish_start(plan), events);
            let warned = warnings_in(publish_orders(publish_start(plan), events));
            &&& warned == if end.overdue {
                1nat
            } else {
                0nat
            }
            &&& end.phase == PublishPhase::Done ==> (warned == 1 <==> end.sent
                < plan.num_msgs_per_peer)
        }),
    decreases events.len(),
{
    let start = publish_start(plan);
    lemma_overdue_iff_short(plan, events);
    if events.len() > 0 {
        let before = events.drop_last();
        lemma_warns_iff_overdue(plan, before);
        lemma_run_well_formed(start, before);
        assert(publish_orders(start, events).drop_last() =~= publish_orders(start, before));
    }
}

/// How often `orders` ask to open a session and to close one.
pub open spec fn sessions_in(orders: Seq<PublishAction>) -> (nat, nat)
    decreases orders.len(),
{
    if orders.len() == 0 {
        (0, 0)
    } else {
        let (opened, closed) = sessions_in(orders.drop_last());
        match orders.last() {
            PublishAction::Open => (opened + 1, closed),
            PublishAction::Close => (opened, closed + 1),
            _ => (opened, closed),
        }
    }
}

/// A worker on a shared session neither opens nor closes a session. A
/// worker in multi-peer mode opens one session before anything else, closes
/// no other and closes it at most once; when it is done it has closed it.
pub proof fn lemma_own_session_closed_once(plan: PublishPlan, events: Seq<PublishEvent>)
    ensures
        ({
            let end = publish_run(publish_start(plan), events);
            let (opened, closed) = sessions_in(publish_orders(publish_start(plan), events));
            let own: nat = if plan.multipeer_mode {
                1
            } else {
                0
            };
            &&& closed <= opened <= own
            &&& end.phase == PublishPhase::Idle ==> opened == 0
            &&& end.phase == PublishPhase::Opening ==> opened == 1 && closed == 0
            &&& end.phase == PublishPhase::Waiting || end.phase == PublishPhase::Sending
                || end.phase == PublishPhase::Overdue ==> opened == own && closed == 0
            &&& end.phase == PublishPhase::Closing || end.phase == PublishPhase::Done ==> opened
                == own && closed == own
        }),
    decreases events.len(),
{
    let start = publish_start(plan);
    if events.len() > 0 {
        let before = events.drop_last();
        lemma_own_session_closed_once(plan, before);
        lemma_run_well_formed(start, before);
        assert(publish_orders(start, events).drop_last() =~= publish_orders(start, before));
    }
}

} // verus!
