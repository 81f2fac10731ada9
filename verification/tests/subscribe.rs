use pubsub_bench::fault::Fault;
use pubsub_bench::subscribe::{
    subscribe_worker, SubscribeAction, SubscribeEvent, SubscribePhase, SubscribePlan,
    SubscribeWorker,
};

const SECOND: u64 = 1_000_000_000;

fn plan(multipeer_mode: bool, total_msg_num: usize) -> SubscribePlan {
    SubscribePlan {
        start_until: 10 * SECOND,
        timeout: 20 * SECOND,
        peer_id: 7,
        multipeer_mode,
        total_msg_num,
    }
}

fn collecting(plan: SubscribePlan, now: u64) -> (SubscribeWorker<u32>, SubscribeAction<u32>) {
    let worker = SubscribeWorker::new(plan);
    let (worker, action) = subscribe_worker(worker, SubscribeEvent::Started { now: 9 * SECOND });
    assert_eq!(action, SubscribeAction::Subscribe);
    subscribe_worker(worker, SubscribeEvent::Subscribed { now })
}

#[test]
fn late_start_reports_the_empty_sequence() {
    let now = 50 * SECOND;
    let mut p = plan(true, 100);
    p.start_until = now - SECOND;
    let worker: SubscribeWorker<u32> = SubscribeWorker::new(p);
    let (worker, action) = subscribe_worker(worker, SubscribeEvent::Started { now });
    assert_eq!(action, SubscribeAction::WarnLateStart);
    assert_eq!(worker.phase(), SubscribePhase::Late);
    let (worker, action) = subscribe_worker(worker, SubscribeEvent::Warned);
    assert_eq!(action, SubscribeAction::Send { peer_id: 7, samples: vec![] });
    let (worker, action) = subscribe_worker(worker, SubscribeEvent::Sent);
    assert_eq!(action, SubscribeAction::Finish);
    assert_eq!(worker.phase(), SubscribePhase::Done);
}

#[test]
fn start_at_the_very_instant_is_not_late() {
    let worker: SubscribeWorker<u32> = SubscribeWorker::new(plan(false, 1));
    let (_, action) = subscribe_worker(worker, SubscribeEvent::Started { now: 10 * SECOND });
    assert_eq!(action, SubscribeAction::Subscribe);
}

#[test]
fn passed_deadline_gives_a_wait_of_zero() {
    let now = 50 * SECOND;
    let mut p = plan(false, 100);
    p.start_until = now + SECOND;
    p.timeout = now - SECOND;
    let worker: SubscribeWorker<u32> = SubscribeWorker::new(p);
    let (worker, action) = subscribe_worker(worker, SubscribeEvent::Started { now });
    assert_eq!(action, SubscribeAction::Subscribe);
    let (worker, action) = subscribe_worker(worker, SubscribeEvent::Subscribed { now });
    assert_eq!(action, SubscribeAction::Collect { wait: 0 });
    let (worker, action) = subscribe_worker(worker, SubscribeEvent::Deadline);
    assert_eq!(action, SubscribeAction::Send { peer_id: 7, samples: vec![] });
    let (_, action) = subscribe_worker(worker, SubscribeEvent::Sent);
    assert_eq!(action, SubscribeAction::Finish);
}

#[test]
fn passed_deadline_keeps_what_arrived_before_the_timer() {
    let (worker, action) = collecting(plan(false, 100), 21 * SECOND);
    assert_eq!(action, SubscribeAction::Collect { wait: 0 });
    let (worker, action) = subscribe_worker(worker, SubscribeEvent::Sample(11));
    assert_eq!(action, SubscribeAction::Next);
    let (_, action) = subscribe_worker(worker, SubscribeEvent::Deadline);
    assert_eq!(action, SubscribeAction::Send { peer_id: 7, samples: vec![11] });
}

#[test]
fn timer_runs_for_the_time_left() {
    let (_, action) = collecting(plan(false, 5), 12 * SECOND);
    assert_eq!(action, SubscribeAction::Collect { wait: 8 * SECOND });
    let (_, action) = collecting(plan(false, 5), 20 * SECOND);
    assert_eq!(action, SubscribeAction::Collect { wait: 0 });
}

#[test]
fn collection_stops_at_the_count() {
    let (mut worker, action) = collecting(plan(false, 3), 12 * SECOND);
    assert_eq!(action, SubscribeAction::Collect { wait: 8 * SECOND });
    let mut reported = None;
    let mut fed = 0;
    for sample in 0..10u32 {
        let (next, action) = subscribe_worker(worker, SubscribeEvent::Sample(sample));
        worker = next;
        fed += 1;
        match action {
            SubscribeAction::Next => {}
            SubscribeAction::Send { peer_id, samples } => {
                reported = Some((peer_id, samples));
                break;
            }
            other => panic!("{:?}", other),
        }
    }
    assert_eq!(fed, 3);
    assert_eq!(reported, Some((7, vec![0, 1, 2])));
    assert_eq!(worker.phase(), SubscribePhase::Reporting);
    assert_eq!(worker.collected(), 0);
}

#[test]
fn samples_keep_the_order_of_arrival() {
    let (worker, _) = collecting(plan(false, 10), 12 * SECOND);
    let (worker, _) = subscribe_worker(worker, SubscribeEvent::Sample(30));
    let (worker, _) = subscribe_worker(worker, SubscribeEvent::Sample(10));
    let (worker, _) = subscribe_worker(worker, SubscribeEvent::Sample(20));
    assert_eq!(worker.collected(), 3);
    let (_, action) = subscribe_worker(worker, SubscribeEvent::Deadline);
    assert_eq!(action, SubscribeAction::Send { peer_id: 7, samples: vec![30, 10, 20] });
}

#[test]
fn end_of_stream_ends_the_collection() {
    let (worker, _) = collecting(plan(false, 10), 12 * SECOND);
    let (worker, _) = subscribe_worker(worker, SubscribeEvent::Sample(1));
    let (_, action) = subscribe_worker(worker, SubscribeEvent::StreamEnded);
    assert_eq!(action, SubscribeAction::Send { peer_id: 7, samples: vec![1] });
}

#[test]
fn count_of_zero_reports_at_once() {
    let (worker, action) = collecting(plan(false, 0), 12 * SECOND);
    assert_eq!(action, SubscribeAction::Send { peer_id: 7, samples: vec![] });
    assert_eq!(worker.phase(), SubscribePhase::Reporting);
}

#[test]
fn multi_peer_worker_opens_and_closes_its_session() {
    let worker: SubscribeWorker<u32> = SubscribeWorker::new(plan(true, 1));
    assert_eq!(worker.plan(), plan(true, 1));
    assert_eq!(worker.phase(), SubscribePhase::Idle);
    let (worker, action) = subscribe_worker(worker, SubscribeEvent::Started { now: SECOND });
    assert_eq!(action, SubscribeAction::Open);
    let (worker, action) = subscribe_worker(worker, SubscribeEvent::Opened);
    assert_eq!(action, SubscribeAction::Subscribe);
    let (worker, action) = subscribe_worker(worker, SubscribeEvent::Subscribed { now: 2 * SECOND });
    assert_eq!(action, SubscribeAction::Collect { wait: 18 * SECOND });
    let (worker, action) = subscribe_worker(worker, SubscribeEvent::Sample(5));
    assert_eq!(action, SubscribeAction::Send { peer_id: 7, samples: vec![5] });
    let (worker, action) = subscribe_worker(worker, SubscribeEvent::Sent);
    assert_eq!(action, SubscribeAction::Close);
    let (worker, action) = subscribe_worker(worker, SubscribeEvent::Closed);
    assert_eq!(action, SubscribeAction::Finish);
    assert_eq!(worker.phase(), SubscribePhase::Done);
}

#[test]
fn shared_session_is_not_closed() {
    let (worker, _) = collecting(plan(false, 1), 12 * SECOND);
    let (worker, _) = subscribe_worker(worker, SubscribeEvent::Sample(5));
    let (worker, action) = subscribe_worker(worker, SubscribeEvent::Sent);
    assert_eq!(action, SubscribeAction::Finish);
    assert_eq!(worker.phase(), SubscribePhase::Done);
}

#[test]
fn failed_action_aborts_the_subscriber() {
    let (worker, _) = collecting(plan(false, 3), 12 * SECOND);
    let (worker, _) = subscribe_worker(worker, SubscribeEvent::Sample(5));
    let (worker, action) = subscribe_worker(worker, SubscribeEvent::Failed);
    assert_eq!(action, SubscribeAction::Abort(Fault::Transport));
    assert_eq!(worker.phase(), SubscribePhase::Failed);
    assert_eq!(worker.collected(), 0);
}

#[test]
fn unexpected_event_aborts_the_subscriber() {
    let worker: SubscribeWorker<u32> = SubscribeWorker::new(plan(false, 3));
    let (worker, action) = subscribe_worker(worker, SubscribeEvent::Sample(1));
    assert_eq!(action, SubscribeAction::Abort(Fault::Unexpected));
    assert_eq!(worker.phase(), SubscribePhase::Failed);
    let (worker, action) = subscribe_worker(worker, SubscribeEvent::Started { now: 0 });
    assert_eq!(action, SubscribeAction::Abort(Fault::Unexpected));
    assert_eq!(worker.phase(), SubscribePhase::Failed);
}

#[test]
fn sample_after_the_report_is_not_collected() {
    let (worker, _) = collecting(plan(false, 1), 12 * SECOND);
    let (worker, action) = subscribe_worker(worker, SubscribeEvent::Sample(5));
    assert_eq!(action, SubscribeAction::Send { peer_id: 7, samples: vec![5] });
    let (worker, action) = subscribe_worker(worker, SubscribeEvent::Sample(6));
    assert_eq!(action, SubscribeAction::Abort(Fault::Unexpected));
    assert_eq!(worker.collected(), 0);
}

#[test]
fn done_subscriber_stays_done() {
    let (worker, _) = collecting(plan(false, 0), 12 * SECOND);
    let (worker, _) = subscribe_worker(worker, SubscribeEvent::Sent);
    assert_eq!(worker.phase(), SubscribePhase::Done);
    let (worker, action) = subscribe_worker(worker, SubscribeEvent::Failed);
    assert_eq!(action, SubscribeAction::Abort(Fault::Unexpected));
    assert_eq!(worker.phase(), SubscribePhase::Done);
}
