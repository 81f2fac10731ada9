use pubsub_bench::combined::{
    pub_and_sub_worker, CombinedAction, CombinedEvent, CombinedPhase, CombinedPlan, CombinedWorker,
};
use pubsub_bench::fault::Fault;
use pubsub_bench::publish::PublishPlan;
use pubsub_bench::subscribe::SubscribePlan;

fn plan() -> CombinedPlan {
    CombinedPlan { start_until: 10, timeout: 20, peer_id: 4, num_msgs_per_peer: 5, total_msg_num: 15 }
}

fn running() -> CombinedWorker {
    let worker = CombinedWorker::new(plan());
    let (worker, action) = pub_and_sub_worker(worker, CombinedEvent::Started);
    assert_eq!(action, CombinedAction::Open);
    let (worker, _) = pub_and_sub_worker(worker, CombinedEvent::Opened);
    assert_eq!(worker.phase, CombinedPhase::Running);
    worker
}

#[test]
fn both_sides_use_the_one_session() {
    let worker = CombinedWorker::new(plan());
    let (worker, _) = pub_and_sub_worker(worker, CombinedEvent::Started);
    let (_, action) = pub_and_sub_worker(worker, CombinedEvent::Opened);
    assert_eq!(
        action,
        CombinedAction::Run {
            publish: PublishPlan {
                start_until: 10,
                timeout: 20,
                num_msgs_per_peer: 5,
                multipeer_mode: false,
            },
            subscribe: SubscribePlan {
                start_until: 10,
                timeout: 20,
                peer_id: 4,
                multipeer_mode: false,
                total_msg_num: 15,
            },
        }
    );
    assert_eq!(plan().publish_plan().multipeer_mode, false);
    assert_eq!(plan().subscribe_plan().multipeer_mode, false);
}

#[test]
fn session_is_closed_once_both_sides_succeeded() {
    let (worker, action) =
        pub_and_sub_worker(running(), CombinedEvent::Joined { published: true, subscribed: true });
    assert_eq!(action, CombinedAction::Close);
    let (worker, action) = pub_and_sub_worker(worker, CombinedEvent::Closed);
    assert_eq!(action, CombinedAction::Finish);
    assert_eq!(worker.phase, CombinedPhase::Done);
    let (worker, action) = pub_and_sub_worker(worker, CombinedEvent::Closed);
    assert_eq!(action, CombinedAction::Abort(Fault::Unexpected));
    assert_eq!(worker.phase, CombinedPhase::Done);
}

#[test]
fn failed_side_fails_the_combined_worker() {
    for (published, subscribed) in [(false, true), (true, false), (false, false)] {
        let (worker, action) =
            pub_and_sub_worker(running(), CombinedEvent::Joined { published, subscribed });
        assert_eq!(action, CombinedAction::Abort(Fault::Worker));
        assert_eq!(worker.phase, CombinedPhase::Failed);
    }
}

#[test]
fn failed_open_aborts_the_combined_worker() {
    let worker = CombinedWorker::new(plan());
    let (worker, _) = pub_and_sub_worker(worker, CombinedEvent::Started);
    let (worker, action) = pub_and_sub_worker(worker, CombinedEvent::Failed);
    assert_eq!(action, CombinedAction::Abort(Fault::Transport));
    assert_eq!(worker.phase, CombinedPhase::Failed);
}

#[test]
fn unexpected_event_aborts_the_combined_worker() {
    let worker = CombinedWorker::new(plan());
    let (worker, action) = pub_and_sub_worker(worker, CombinedEvent::Closed);
    assert_eq!(action, CombinedAction::Abort(Fault::Unexpected));
    assert_eq!(worker.phase, CombinedPhase::Failed);
}
