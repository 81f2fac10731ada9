use pubsub_bench::clock::wait_until;
use pubsub_bench::fault::Fault;
use pubsub_bench::publish::{
    publish_worker, PublishAction, PublishEvent, PublishPhase, PublishPlan, PublishWorker,
};

const MILLI: u64 = 1_000_000;

fn plan(multipeer_mode: bool, num_msgs_per_peer: usize) -> PublishPlan {
    PublishPlan { start_until: 10 * MILLI, timeout: 20 * MILLI, num_msgs_per_peer, multipeer_mode }
}

/// Runs a worker on a clock that starts at `now` and on which every publish
/// takes `cost`. Gives the actions it asked for.
fn run(plan: PublishPlan, mut now: u64, cost: u64) -> Vec<PublishAction> {
    let mut worker = PublishWorker::new(plan);
    let mut event = PublishEvent::Started { now };
    let mut actions = Vec::new();
    loop {
        let (next, action) = publish_worker(worker, event);
        worker = next;
        actions.push(action);
        event = match action {
            PublishAction::Open => PublishEvent::Opened { now },
            PublishAction::Sleep { wait } => {
                now += wait;
                PublishEvent::Woke
            }
            PublishAction::Publish => {
                now += cost;
                PublishEvent::Published { now }
            }
            PublishAction::WarnDeadline => PublishEvent::Warned,
            PublishAction::Close => PublishEvent::Closed,
            PublishAction::Finish { .. } | PublishAction::Abort(_) => return actions,
        };
    }
}

fn published(actions: &Vec<PublishAction>) -> usize {
    actions.iter().filter(|a| **a == PublishAction::Publish).count()
}

#[test]
fn wait_is_the_time_left_or_zero() {
    assert_eq!(wait_until(10, 4), 6);
    assert_eq!(wait_until(10, 10), 0);
    assert_eq!(wait_until(10, 11), 0);
    assert_eq!(wait_until(u64::MAX, 0), u64::MAX);
    assert_eq!(wait_until(0, u64::MAX), 0);
}

#[test]
fn deadline_cuts_the_quota_short() {
    let p = PublishPlan { start_until: 0, timeout: MILLI, num_msgs_per_peer: 1000, multipeer_mode: false };
    let actions = run(p, 0, 10_000);
    assert_eq!(published(&actions), 100);
    assert!(published(&actions) < 1000);
    assert_eq!(actions[actions.len() - 2], PublishAction::WarnDeadline);
    assert_eq!(actions[actions.len() - 1], PublishAction::Finish { sent: 100, overdue: true });
}

#[test]
fn quota_in_time_is_emitted_whole() {
    let actions = run(plan(false, 3), 4 * MILLI, MILLI);
    assert_eq!(
        actions,
        vec![
            PublishAction::Sleep { wait: 6 * MILLI },
            PublishAction::Publish,
            PublishAction::Publish,
            PublishAction::Publish,
            PublishAction::Finish { sent: 3, overdue: false },
        ]
    );
}

#[test]
fn start_in_the_past_does_not_sleep() {
    let actions = run(plan(false, 1), 10 * MILLI, MILLI);
    assert_eq!(
        actions,
        vec![PublishAction::Publish, PublishAction::Finish { sent: 1, overdue: false }]
    );
    let actions = run(plan(false, 1), 15 * MILLI, MILLI);
    assert_eq!(
        actions,
        vec![PublishAction::Publish, PublishAction::Finish { sent: 1, overdue: false }]
    );
}

#[test]
fn multi_peer_worker_opens_first_and_closes_last() {
    let actions = run(plan(true, 2), 4 * MILLI, MILLI);
    assert_eq!(
        actions,
        vec![
            PublishAction::Open,
            PublishAction::Sleep { wait: 6 * MILLI },
            PublishAction::Publish,
            PublishAction::Publish,
            PublishAction::Close,
            PublishAction::Finish { sent: 2, overdue: false },
        ]
    );
}

#[test]
fn multi_peer_worker_closes_after_the_warning() {
    let actions = run(plan(true, 5), 4 * MILLI, 6 * MILLI);
    assert_eq!(
        actions,
        vec![
            PublishAction::Open,
            PublishAction::Sleep { wait: 6 * MILLI },
            PublishAction::Publish,
            PublishAction::Publish,
            PublishAction::WarnDeadline,
            PublishAction::Close,
            PublishAction::Finish { sent: 2, overdue: true },
        ]
    );
}

#[test]
fn deadline_after_the_last_message_gives_no_warning() {
    let actions = run(plan(false, 1), 10 * MILLI, 10 * MILLI);
    assert_eq!(
        actions,
        vec![PublishAction::Publish, PublishAction::Finish { sent: 1, overdue: false }]
    );
    let actions = run(plan(false, 1), 30 * MILLI, MILLI);
    assert_eq!(
        actions,
        vec![PublishAction::Publish, PublishAction::Finish { sent: 1, overdue: false }]
    );
}

#[test]
fn complete_quota_at_the_deadline_gives_no_warning() {
    let actions = run(plan(true, 2), 10 * MILLI, 5 * MILLI);
    assert_eq!(
        actions,
        vec![
            PublishAction::Open,
            PublishAction::Publish,
            PublishAction::Publish,
            PublishAction::Close,
            PublishAction::Finish { sent: 2, overdue: false },
        ]
    );
}

#[test]
fn deadline_before_the_last_message_warns() {
    let actions = run(plan(false, 3), 10 * MILLI, 5 * MILLI);
    assert_eq!(
        actions,
        vec![
            PublishAction::Publish,
            PublishAction::Publish,
            PublishAction::WarnDeadline,
            PublishAction::Finish { sent: 2, overdue: true },
        ]
    );
}

#[test]
fn warning_comes_exactly_with_a_short_count() {
    for quota in 0..6usize {
        for cost in [1u64, 2, 3, 4, 5, 6, 10, 20] {
            let actions = run(plan(false, quota), 10 * MILLI, cost * MILLI);
            let warned = actions.iter().filter(|a| **a == PublishAction::WarnDeadline).count();
            let sent = published(&actions);
            assert!(sent <= quota);
            assert_eq!(warned == 1, sent < quota);
            assert!(warned <= 1);
            assert_eq!(
                actions[actions.len() - 1],
                PublishAction::Finish { sent, overdue: sent < quota }
            );
        }
    }
}

#[test]
fn passed_deadline_allows_one_message() {
    let actions = run(plan(false, 1000), 30 * MILLI, 1);
    assert_eq!(published(&actions), 1);
    assert_eq!(actions[actions.len() - 1], PublishAction::Finish { sent: 1, overdue: true });
}

#[test]
fn quota_of_zero_publishes_nothing() {
    let actions = run(plan(false, 0), 4 * MILLI, MILLI);
    assert_eq!(
        actions,
        vec![PublishAction::Sleep { wait: 6 * MILLI }, PublishAction::Finish { sent: 0, overdue: false }]
    );
    let actions = run(plan(true, 0), 40 * MILLI, MILLI);
    assert_eq!(
        actions,
        vec![PublishAction::Open, PublishAction::Close, PublishAction::Finish { sent: 0, overdue: false }]
    );
}

#[test]
fn failed_publish_aborts_the_publisher() {
    let worker = PublishWorker::new(plan(false, 3));
    assert_eq!(worker.plan(), plan(false, 3));
    let (worker, action) = publish_worker(worker, PublishEvent::Started { now: 12 * MILLI });
    assert_eq!(action, PublishAction::Publish);
    assert_eq!(worker.phase(), PublishPhase::Sending);
    let (worker, action) = publish_worker(worker, PublishEvent::Published { now: 13 * MILLI });
    assert_eq!(action, PublishAction::Publish);
    assert_eq!(worker.sent(), 1);
    let (worker, action) = publish_worker(worker, PublishEvent::Failed);
    assert_eq!(action, PublishAction::Abort(Fault::Transport));
    assert_eq!(worker.phase(), PublishPhase::Failed);
    assert_eq!(worker.sent(), 1);
    assert!(!worker.overdue());
    let (worker, action) = publish_worker(worker, PublishEvent::Published { now: 14 * MILLI });
    assert_eq!(action, PublishAction::Abort(Fault::Unexpected));
    assert_eq!(worker.sent(), 1);
}

#[test]
fn unexpected_event_aborts_the_publisher() {
    let worker = PublishWorker::new(plan(true, 3));
    let (worker, action) = publish_worker(worker, PublishEvent::Published { now: 0 });
    assert_eq!(action, PublishAction::Abort(Fault::Unexpected));
    assert_eq!(worker.phase(), PublishPhase::Failed);
    assert_eq!(worker.sent(), 0);
}
