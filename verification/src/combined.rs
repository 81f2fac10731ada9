//! The combined worker: one peer that publishes and subscribes over one
//! session of its own.
//!
//! It opens the session, runs a publish worker and a subscribe worker side
//! by side on it, waits for both, and closes the session once both have
//! succeeded. [`pub_and_sub_worker`] is its transition: from the worker and
//! the event that just happened to the next state and the action to perform.

use crate::fault::Fault;
use crate::publish::PublishPlan;
use crate::subscribe::SubscribePlan;
use vstd::prelude::*;

verus! {

/// What one combined worker is asked to do.
#[derive(Clone, Copy, Debug, PartialEq, Eq)]
pub struct CombinedPlan {
    pub start_until: u64,
    pub timeout: u64,
    pub peer_id: usize,
    /// The number of messages to emit.
    pub num_msgs_per_peer: usize,
    /// The number of samples after which the collection ends.
    pub total_msg_num: usize,
}

/// Where a combined worker stands.
#[derive(Clone, Copy, Debug, PartialEq, Eq)]
pub enum CombinedPhase {
    /// Not started yet.
    Idle,
    /// The session is being opened.
    Opening,
    /// The two workers run.
    Running,
    /// The session is being closed.
    Closing,
    /// The worker has finished.
    Done,
    /// The worker has aborted.
    Failed,
}

/// What happened since the last action.
#[derive(Clone, Copy, Debug, PartialEq, Eq)]
pub enum CombinedEvent {
    /// The worker was started.
    Started,
    /// The session is open.
    Opened,
    /// Both workers have returned; each flag says whether that one
    /// succeeded.
    Joined { published: bool, subscribed: bool },
    /// The session is closed.
    Closed,
    /// The action failed.
    Failed,
}

/// What the caller is to do next.
#[derive(Clone, Copy, Debug, PartialEq, Eq)]
pub enum CombinedAction {
    /// Open the session.
    Open,
    /// Run a publish worker and a subscribe worker with these plans side by
    /// side on the open session, and wait for both.
    Run { publish: PublishPlan, subscribe: SubscribePlan },
    /// Close the session.
    Close,
    /// Return: the worker is done.
    Finish,
    /// Give up.
    Abort(Fault),
}

/// One combined worker: its plan and its phase.
#[derive(Clone, Copy, Debug, PartialEq, Eq)]
pub struct CombinedWorker {
    pub plan: CombinedPlan,
    pub phase: CombinedPhase,
}

impl CombinedPlan {
    /// The plan of the publishing side. It uses the session that the
    /// combined worker has opened, and so opens none.
    pub open spec fn publishing(self) -> PublishPlan {
        PublishPlan {
            start_until: self.start_until,
            timeout: self.timeout,
            num_msgs_per_peer: self.num_msgs_per_peer,
            multipeer_mode: false,
        }
    }

    /// The plan of the subscribing side. It uses the session that the
    /// combined worker has opened, and so opens none.
    pub open spec fn subscribing(self) -> SubscribePlan {
        SubscribePlan {
            start_until: self.start_until,
            timeout: self.timeout,
            peer_id: self.peer_id,
            multipeer_mode: false,
            total_msg_num: self.total_msg_num,
        }
    }

    /// The plan of the publishing side.
    pub fn publish_plan(&self) -> (plan: PublishPlan)
        ensures
            plan == self.publishing(),
    {
        PublishPlan {
            start_until: self.start_until,
            timeout: self.timeout,
            num_msgs_per_peer: self.num_msgs_per_peer,
            multipeer_mode: false,
        }
    }

    /// The plan of the subscribing side.
    pub fn subscribe_plan(&self) -> (plan: SubscribePlan)
        ensures
            plan == self.subscribing(),
    {
        SubscribePlan {
            start_until: self.start_until,
            timeout: self.timeout,
            peer_id: self.peer_id,
            multipeer_mode: false,
            total_msg_num: self.total_msg_num,
        }
    }
}

impl CombinedWorker {
    /// The same worker in another phase.
    pub open spec fn at(self, phase: CombinedPhase) -> Self {
        CombinedWorker { phase, ..self }
    }

    /// Whether the worker has finished or aborted.
    pub open spec fn ended(self) -> bool {
        self.phase == CombinedPhase::Done || self.phase == CombinedPhase::Failed
    }

    /// A worker for `plan` that has not started.
    pub fn new(plan: CombinedPlan) -> (worker: Self)
        ensures
            worker == combined_start(plan),
    {
        CombinedWorker { plan, phase: CombinedPhase::Idle }
    }
}

/// A worker that has not started.
pub open spec fn combined_start(plan: CombinedPlan) -> CombinedWorker {
    CombinedWorker { plan, phase: CombinedPhase::Idle }
}

/// The transition of a combined worker: its next state and the action it
/// asks for.
///
/// * It opens one session, then runs both sides on it, neither of which
///   opens a session of its own.
/// * Once both sides have returned, it closes the session and finishes where
///   both succeeded, and aborts where one of them failed.
/// * A failed action aborts the worker, and so does an event that its phase
///   does not expect. A worker that has ended stays as it is.
pub open spec fn combined_step(w: CombinedWorker, event: CombinedEvent) -> (
    CombinedWorker,
    CombinedAction,
) {
    if w.ended() {
        (w, CombinedAction::Abort(Fault::Unexpected))
    } else if event is Failed {
        (w.at(CombinedPhase::Failed), CombinedAction::Abort(Fault::Transport))
    } else {
        match (w.phase, event) {
            (CombinedPhase::Idle, CombinedEvent::Started) => (
                w.at(CombinedPhase::Opening),
                CombinedAction::Open,
            ),
            (CombinedPhase::Opening, CombinedEvent::Opened) => (
                w.at(CombinedPhase::Running),
                CombinedAction::Run {
                    publish: w.plan.publishing(),
                    subscribe: w.plan.subscribing(),
                },
            ),
            (CombinedPhase::Running, CombinedEvent::Joined { published, subscribed }) => {
                if published && subscribed {
                    (w.at(CombinedPhase::Closing), CombinedAction::Close)
                } else {
                    (w.at(CombinedPhase::Failed), CombinedAction::Abort(Fault::Worker))
                }
            },
            (CombinedPhase::Closing, CombinedEvent::Closed) => (
                w.at(CombinedPhase::Done),
                CombinedAction::Finish,
            ),
            _ => (w.at(CombinedPhase::Failed), CombinedAction::Abort(Fault::Unexpected)),
        }
    }
}

/// Takes a combined worker one step further: `event` is what happened since
/// the last action, the result is the worker's next state and the action to
/// perform now.
pub fn pub_and_sub_worker(worker: CombinedWorker, event: CombinedEvent) -> (next: (
    CombinedWorker,
    CombinedAction,
))
    ensures
        next == combined_step(worker, event),
{
    let plan = worker.plan;
    let failed = CombinedWorker { plan, phase: CombinedPhase::Failed };
    match worker.phase {
        CombinedPhase::Done | CombinedPhase::Failed => {
            return (worker, CombinedAction::Abort(Fault::Unexpected));
        },
        _ => {},
    }
    match (worker.phase, event) {
        (_, CombinedEvent::Failed) => (failed, CombinedAction::Abort(Fault::Transport)),
        (CombinedPhase::Idle, CombinedEvent::Started) => (
            CombinedWorker { plan, phase: CombinedPhase::Opening },
            CombinedAction::Open,
        ),
        (CombinedPhase::Opening, CombinedEvent::Opened) => (
            CombinedWorker { plan, phase: CombinedPhase::Running },
            CombinedAction::Run { publish: plan.publish_plan(), subscribe: plan.subscribe_plan() },
        ),
        (CombinedPhase::Running, CombinedEvent::Joined { published, subscribed }) => {
            if published && subscribed {
                (CombinedWorker { plan, phase: CombinedPhase::Closing }, CombinedAction::Close)
            } else {
                (failed, CombinedAction::Abort(Fault::Worker))
            }
        },
        (CombinedPhase::Closing, CombinedEvent::Closed) => (
            CombinedWorker { plan, phase: CombinedPhase::Done },
            CombinedAction::Finish,
        ),
        _ => (failed, CombinedAction::Abort(Fault::Unexpected)),
    }
}

/// The worker after `events` have happened to `w`, one after another.
pub open spec fn combined_run(w: CombinedWorker, events: Seq<CombinedEvent>) -> CombinedWorker
    decreases events.len(),
{
    if events.len() == 0 {
        w
    } else {
        combined_step(combined_run(w, events.drop_last()), events.last()).0
    }
}

/// The actions that `w` asks for while `events` happen to it, one for each
/// event.
pub open spec fn combined_orders(w: CombinedWorker, events: Seq<CombinedEvent>) -> Seq<
    CombinedAction,
>
    decreases events.len(),
{
    if events.len() == 0 {
        Seq::empty()
    } else {
        combined_orders(w, events.drop_last()).push(
            combined_step(combined_run(w, events.drop_last()), events.last()).1,
        )
    }
}

/// How often `orders` ask to open the session, to run the two sides, and to
/// close the session.
pub open spec fn session_uses(orders: Seq<CombinedAction>) -> (nat, nat, nat)
    decreases orders.len(),
{
    if orders.len() == 0 {
        (0, 0, 0)
    } else {
        let (opened, ran, closed) = session_uses(orders.drop_last());
        match orders.last() {
            CombinedAction::Open => (opened + 1, ran, closed),
            CombinedAction::Run { .. } => (opened, ran + 1, closed),
            CombinedAction::Close => (opened, ran, closed + 1),
            _ => (opened, ran, closed),
        }
    }
}

/// Whatever happens, a combined worker opens at most one session, runs its
/// two sides at most once and only on the open session, and closes the
/// session at most once and only after both sides have returned. A worker
/// that is done has opened the session once, run both sides once and closed
/// the session once.
pub proof fn lemma_one_session(plan: CombinedPlan, events: Seq<CombinedEvent>)
    ensures
        ({
            let end = combined_run(combined_start(plan), events);
            let (opened, ran, closed) = session_uses(
                combined_orders(combined_start(plan), events),
            );
            &&& end.plan == plan
            &&& closed <= ran <= opened <= 1
            &&& end.phase == CombinedPhase::Idle ==> opened == 0
            &&& end.phase == CombinedPhase::Opening ==> opened == 1 && ran == 0
            &&& end.phase == CombinedPhase::Running ==> ran == 1 && closed == 0
            &&& end.phase == CombinedPhase::Closing || end.phase == CombinedPhase::Done ==> closed
                == 1
        }),
    decreases events.len(),
{
    let start = combined_start(plan);
    if events.len() > 0 {
        let before = events.drop_last();
        lemma_one_session(plan, before);
        assert(combined_orders(start, events).drop_last() =~= combined_orders(start, before));
    }
}

/// Where one of the two sides failed, the combined worker aborts and does
/// not finish, whatever happens to it afterwards.
pub proof fn lemma_failed_side_aborts(
    w: CombinedWorker,
    published: bool,
    subscribed: bool,
    events: Seq<CombinedEvent>,
)
    requires
        w.phase == CombinedPhase::Running,
        !published || !subscribed,
    ensures
        ({
            let (failed, action) = combined_step(w, CombinedEvent::Joined { published, subscribed });
            &&& action == CombinedAction::Abort(Fault::Worker)
            &&& failed.phase == CombinedPhase::Failed
            &&& combined_run(failed, events).phase == CombinedPhase::Failed
        }),
    decreases events.len(),
{
    if events.len() > 0 {
        lemma_failed_side_aborts(w, published, subscribed, events.drop_last());
    }
}

} // verus!
