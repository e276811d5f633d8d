use std::collections::HashMap;

use hypha::ids::{PeerId, Uuid};
use hypha::messages::action::{
    ActionRequest, AggregateAction, AggregateError, AggregateStatus, ExecutorAction,
    ExecutorStatus, TrainAction, TrainError, TrainStatus,
};
use hypha::messages::reference::{Reference, SelectionStrategy};
use hypha::number::{Double, Single};
use hypha::messages::executor::WorkerSpec;
use hypha::pool::{Memberships, Pool, PoolConfig, PoolHandle};
use hypha::pool_statistics::{Measurements, PoolStatisticsHandle, PoolWithStatistics};
use hypha::resources::Resources;
use hypha::scheduler_config::PriceRange;
use hypha::scheduling::batch_scheduler::{
    conclude, schedule, BatchScheduler, BatchSchedulerError, Clock, Decision, RoundState,
};
use hypha::statistics::RunningMean;
use hypha::time::{Duration, Instant, SystemTime};
use hypha::worker::Worker;

fn peer(n: u128) -> PeerId {
    PeerId { code: 0x12, size: 32, d0: n, d1: 0, d2: 0, d3: 0 }
}

fn spec() -> WorkerSpec {
    WorkerSpec { resources: Resources::default(), executor: Vec::new() }
}

/// The state around a scheduler: a pool of workers, a pool of parameter servers, and statistics.
struct World {
    shared: Memberships,
    measurements: Measurements<RunningMean>,
    workers: PoolStatisticsHandle<RunningMean>,
    servers: PoolHandle,
}

fn filled(shared: &mut Memberships, name: &str, peers: &[u128]) -> Pool {
    let pool = Pool::new(
        shared,
        PoolConfig {
            name: name.to_string(),
            spec: spec(),
            price: PriceRange::default(),
            min: 0,
            target: 0,
            grace: Duration::from_secs(1),
        },
    );
    let price = Double { bits: 1.0f64.to_bits() };
    let batch = peers
        .iter()
        .map(|n| Worker::create(job(*n), peer(*n), spec(), Resources::default(), price))
        .collect();
    pool.allocated(shared, Ok(&batch));
    pool
}

fn world(workers: &[u128], servers: &[u128]) -> World {
    let mut shared = Memberships::new();
    let mut measurements = Measurements::new();
    let pool = filled(&mut shared, "test", workers);
    let workers = PoolWithStatistics::new(pool, &mut measurements).handle();
    let servers = filled(&mut shared, "ps", servers).handle();
    World { shared, measurements, workers, servers }
}

fn clock(millis: u64) -> Clock {
    let nanos = Duration::from_millis(millis).nanos;
    Clock {
        now: SystemTime { nanos: 1_000_000_000_000 + nanos as i128 },
        instant: Instant { nanos },
    }
}

fn later(millis: u64, by: u64) -> SystemTime {
    clock(millis).now.after_millis(by)
}

fn job(n: u128) -> Uuid {
    Uuid { bits: n }
}

fn decide(
    round: &mut RoundState,
    workers: &[u128],
    servers: &[u128],
    millis: u64,
    from: u128,
    status: ExecutorStatus,
) -> Decision {
    let mut world = world(workers, servers);
    schedule(
        &world.shared,
        &mut world.measurements,
        &world.workers,
        &world.servers,
        round,
        Instant { nanos: 0 },
        clock(millis),
        (peer(from), ActionRequest { job_id: job(9), status }),
    )
}

fn train(status: TrainStatus) -> ExecutorStatus {
    ExecutorStatus::Train(status)
}

fn aggregate(status: AggregateStatus) -> ExecutorStatus {
    ExecutorStatus::Aggregate(status)
}

fn peers_in(reference: &Reference) -> (Vec<PeerId>, SelectionStrategy) {
    match reference {
        Reference::Peers { peers, strategy, resource: None } => (peers.clone(), *strategy),
        other => panic!("unexpected reference: {:?}", other),
    }
}

fn idle_until(decision: &Decision) -> SystemTime {
    match &decision.response.next {
        ExecutorAction::Train(TrainAction::Idle { timeout }) => *timeout,
        ExecutorAction::Aggregate(AggregateAction::Idle { timeout }) => *timeout,
        other => panic!("unexpected action: {:?}", other),
    }
}

fn metrics() -> HashMap<String, Single> {
    HashMap::from([("loss".to_string(), Single { bits: 0.5f32.to_bits() })])
}

#[test]
fn train_idle_executes_batch() {
    let mut round = RoundState::default();
    let decision = decide(&mut round, &[], &[], 0, 1, train(TrainStatus::Idle));
    match decision.response.next {
        ExecutorAction::Train(TrainAction::ExecuteBatch) => {}
        other => panic!("Unexpected response: {:?}", other),
    }
    assert_eq!(decision.response.job_id, job(9));
    assert!(decision.report.is_none());
    assert!(!decision.advance);
}

#[test]
fn train_waits_without_parameter_server() {
    let mut round = RoundState::default();
    let status = train(TrainStatus::BatchCompleted { batch_size: 4 });
    let decision = decide(&mut round, &[], &[], 0, 1, status);
    match decision.response.next {
        ExecutorAction::Train(TrainAction::Idle { .. }) => {}
        ref other => panic!("Unexpected response: {:?}", other),
    }
    assert_eq!(idle_until(&decision), later(0, 1_000));
}

#[test]
fn updates_go_to_the_oldest_server() {
    let mut round = RoundState::default();
    let status = train(TrainStatus::BatchCompleted { batch_size: 4 });
    let decision = decide(&mut round, &[1, 2], &[7, 8], 5, 1, status);
    match &decision.response.next {
        ExecutorAction::Train(TrainAction::SendUpdate { target, timeout }) => {
            assert_eq!(peers_in(target), (vec![peer(7)], SelectionStrategy::One));
            assert_eq!(*timeout, later(5, 30_000));
        }
        other => panic!("unexpected action: {:?}", other),
    }
}

#[test]
fn a_completed_batch_is_measured() {
    let mut world = world(&[1], &[7]);
    let mut round = RoundState::default();
    for millis in [1_010, 1_025] {
        let status = train(TrainStatus::BatchCompleted { batch_size: 4 });
        schedule(
            &world.shared,
            &mut world.measurements,
            &world.workers,
            &world.servers,
            &mut round,
            Instant { nanos: Duration::from_secs(1).nanos },
            clock(millis),
            (peer(1), ActionRequest { job_id: job(9), status }),
        );
    }
    let statistics = world.workers.statistics(&world.shared, &mut world.measurements);
    assert_eq!(statistics[0].last_updated, Some(25));
    assert_eq!(statistics[0].statistic, Some(15));
}

#[test]
fn a_worker_that_sent_its_update_applies_the_next() {
    let mut round = RoundState::new(1, Duration::from_secs(1));
    let decision = decide(&mut round, &[1], &[7, 8], 0, 1, train(TrainStatus::SentUpdate));
    match &decision.response.next {
        ExecutorAction::Train(TrainAction::ApplyUpdate { source, timeout }) => {
            assert_eq!(peers_in(source), (vec![peer(7), peer(8)], SelectionStrategy::All));
            assert_eq!(*timeout, later(0, 30_000));
        }
        other => panic!("unexpected action: {:?}", other),
    }
    let decision = decide(&mut round, &[1], &[], 0, 1, train(TrainStatus::SentUpdate));
    assert_eq!(idle_until(&decision), later(0, 1_000));
    assert!(round.ready(&vec![peer(1)], clock(0).instant));
    assert!(!round.ready(&vec![peer(1), peer(2)], clock(0).instant));
}

#[test]
fn an_applied_update_is_reported() {
    let mut round = RoundState::default();
    let status = train(TrainStatus::AppliedUpdate { round: 3, metrics: metrics() });
    let decision = decide(&mut round, &[1], &[7], 0, 1, status);
    assert!(matches!(
        decision.response.next,
        ExecutorAction::Train(TrainAction::ExecuteBatch)
    ));
    let (from, report) = decision.report.expect("metrics to hand on");
    assert_eq!(from, peer(1));
    assert_eq!(report.round, 3);
    assert_eq!(report.metrics["loss"], Single { bits: 0.5f32.to_bits() });
}

#[test]
fn train_errors_wait_or_end() {
    let mut round = RoundState::default();
    let message = "gone".to_string();
    let status = train(TrainStatus::Error(TrainError::Connection { message: message.clone() }));
    let decision = decide(&mut round, &[1], &[7], 0, 1, status);
    assert_eq!(idle_until(&decision), later(0, 1_000));
    for status in [TrainStatus::Error(TrainError::Other { message }), TrainStatus::Terminated] {
        let decision = decide(&mut round, &[1], &[7], 0, 1, train(status));
        assert!(matches!(
            decision.response.next,
            ExecutorAction::Train(TrainAction::Terminate)
        ));
    }
}

#[test]
fn aggregate_errors_wait_or_end() {
    let mut round = RoundState::default();
    let message = "gone".to_string();
    let status =
        aggregate(AggregateStatus::Error(AggregateError::Connection { message: message.clone() }));
    let decision = decide(&mut round, &[1], &[7], 0, 7, status);
    assert_eq!(idle_until(&decision), later(0, 1_000));
    let ends = [
        AggregateStatus::Error(AggregateError::Other { message }),
        AggregateStatus::Terminated,
    ];
    for status in ends {
        let decision = decide(&mut round, &[1], &[7], 0, 7, aggregate(status));
        assert!(matches!(
            decision.response.next,
            ExecutorAction::Aggregate(AggregateAction::Terminate)
        ));
    }
}

#[test]
fn only_the_primary_aggregates() {
    let mut round = RoundState::default();
    decide(&mut round, &[1], &[7, 8], 0, 1, train(TrainStatus::SentUpdate));
    let other = decide(&mut round, &[1], &[7, 8], 0, 8, aggregate(AggregateStatus::Idle));
    assert_eq!(idle_until(&other), later(0, 5_000));
    let status = AggregateStatus::AggregatedUpdates { metrics: None };
    let other = decide(&mut round, &[1], &[7, 8], 0, 8, aggregate(status));
    assert_eq!(idle_until(&other), later(0, 5_000));
    let stranger = decide(&mut round, &[1], &[], 0, 7, aggregate(AggregateStatus::Idle));
    assert_eq!(idle_until(&stranger), later(0, 5_000));

    let primary = decide(&mut round, &[1], &[7, 8], 0, 7, aggregate(AggregateStatus::Idle));
    match &primary.response.next {
        ExecutorAction::Aggregate(AggregateAction::AggregateUpdates { source }) => {
            assert_eq!(peers_in(source), (vec![peer(1)], SelectionStrategy::All));
        }
        other => panic!("unexpected action: {:?}", other),
    }
}

#[test]
fn the_primary_waits_for_workers() {
    let mut round = RoundState::default();
    let decision = decide(&mut round, &[], &[7], 0, 7, aggregate(AggregateStatus::Idle));
    assert_eq!(idle_until(&decision), later(0, 1_000));
    let status = AggregateStatus::AggregatedUpdates { metrics: None };
    let decision = decide(&mut round, &[], &[7], 0, 7, aggregate(status));
    assert_eq!(idle_until(&decision), later(0, 1_000));
}

#[test]
fn a_quorum_aggregates_after_the_grace_period() {
    let mut round = RoundState::new(2, Duration::from_millis(400));
    let workers = [1, 2, 3];
    decide(&mut round, &workers, &[7], 1_000, 1, train(TrainStatus::SentUpdate));
    let early = decide(&mut round, &workers, &[7], 1_500, 7, aggregate(AggregateStatus::Idle));
    assert_eq!(idle_until(&early), later(1_500, 500));
    decide(&mut round, &workers, &[7], 1_300, 1, train(TrainStatus::SentUpdate));
    let twice = decide(&mut round, &workers, &[7], 1_500, 7, aggregate(AggregateStatus::Idle));
    assert_eq!(idle_until(&twice), later(1_500, 500));
    decide(&mut round, &workers, &[7], 1_350, 2, train(TrainStatus::SentUpdate));
    let waiting = decide(&mut round, &workers, &[7], 1_399, 7, aggregate(AggregateStatus::Idle));
    assert_eq!(idle_until(&waiting), later(1_399, 500));
    let ready = decide(&mut round, &workers, &[7], 1_400, 7, aggregate(AggregateStatus::Idle));
    match &ready.response.next {
        ExecutorAction::Aggregate(AggregateAction::AggregateUpdates { source }) => {
            assert_eq!(peers_in(source).0, vec![peer(1), peer(2), peer(3)]);
        }
        other => panic!("unexpected action: {:?}", other),
    }
}

#[test]
fn a_quorum_is_no_larger_than_the_pool() {
    let mut round = RoundState::new(5, Duration::from_millis(0));
    decide(&mut round, &[1, 2], &[7], 0, 1, train(TrainStatus::SentUpdate));
    assert!(!round.ready(&vec![peer(1), peer(2)], clock(0).instant));
    decide(&mut round, &[1, 2], &[7], 0, 9, train(TrainStatus::SentUpdate));
    assert!(round.ready(&vec![peer(1), peer(2)], clock(0).instant));
}

#[test]
fn aggregated_updates_are_broadcast() {
    let mut round = RoundState::default();
    let status = AggregateStatus::AggregatedUpdates { metrics: None };
    let decision = decide(&mut round, &[1, 2], &[7], 0, 7, aggregate(status));
    match &decision.response.next {
        ExecutorAction::Aggregate(AggregateAction::BroadcastUpdate { target }) => {
            assert_eq!(peers_in(target), (vec![peer(1), peer(2)], SelectionStrategy::All));
        }
        other => panic!("unexpected action: {:?}", other),
    }
    assert!(!decision.advance);
}

#[test]
fn a_broadcast_of_the_primary_ends_the_round() {
    let mut round = RoundState::new(1, Duration::from_millis(0));
    decide(&mut round, &[1], &[7, 8], 0, 1, train(TrainStatus::SentUpdate));

    let status = AggregateStatus::BroadcastedUpdate { metrics: None };
    let other = decide(&mut round, &[1], &[7, 8], 0, 8, aggregate(status.clone()));
    assert_eq!(idle_until(&other), later(0, 1_000));
    assert!(!other.advance);
    conclude(&mut round, other, true).unwrap();
    assert_eq!(round.round(), 0);
    assert!(round.ready(&vec![peer(1)], clock(0).instant));

    let primary = decide(&mut round, &[1], &[7, 8], 0, 7, aggregate(status));
    assert!(primary.advance);
    assert!(primary.report.is_none());
    conclude(&mut round, primary, false).unwrap();
    assert_eq!(round.round(), 1);
    assert!(!round.ready(&vec![peer(1)], clock(1_000).instant));
}

#[test]
fn metrics_that_cannot_be_sent_end_in_an_error() {
    let mut round = RoundState::default();
    let status = AggregateStatus::BroadcastedUpdate { metrics: Some(metrics()) };
    let decision = decide(&mut round, &[1], &[7], 0, 7, aggregate(status));
    let (from, report) = decision.report.as_ref().expect("metrics to hand on");
    assert_eq!((*from, report.round), (peer(7), 0));
    let error = conclude(&mut round, decision, false).unwrap_err();
    assert!(matches!(error, BatchSchedulerError::SendMetricsError));
    assert_eq!(error.to_string(), "Send Metrics Error");
    assert_eq!(round.round(), 0);
}

#[test]
fn a_scheduler_answers_for_its_own_job() {
    let mut scheduler =
        BatchScheduler::new(job(9), 1, Duration::from_secs(1), Instant { nanos: 0 });
    let own = ActionRequest { job_id: job(9), status: train(TrainStatus::Idle) };
    let other = ActionRequest { job_id: job(8), status: train(TrainStatus::Idle) };
    assert!(scheduler.accepts(&own));
    assert!(!scheduler.accepts(&other));

    let mut world = world(&[1], &[7]);
    let decision = scheduler.decide(
        &world.shared,
        &mut world.measurements,
        &world.workers,
        &world.servers,
        clock(0),
        (peer(1), own),
    );
    let response = scheduler.respond(decision, true);
    assert_eq!(response.job_id, job(9));
    assert!(matches!(response.next, ExecutorAction::Train(TrainAction::ExecuteBatch)));
}

#[test]
fn a_scheduler_in_error_terminates() {
    let mut scheduler =
        BatchScheduler::new(job(9), 1, Duration::from_secs(1), Instant { nanos: 0 });
    let mut world = world(&[1], &[7]);
    let status = aggregate(AggregateStatus::BroadcastedUpdate { metrics: Some(metrics()) });
    let request = (peer(7), ActionRequest { job_id: job(8), status });
    let decision = scheduler.decide(
        &world.shared,
        &mut world.measurements,
        &world.workers,
        &world.servers,
        clock(0),
        request,
    );
    let response = scheduler.respond(decision, false);
    assert_eq!(response.job_id, job(9));
    assert!(matches!(response.next, ExecutorAction::Train(TrainAction::Terminate)));
}

#[test]
fn scheduler_errors_say_what_they_are() {
    let reason = "no workers".to_string();
    let texts = [
        (BatchSchedulerError::Disconnected, "Disconnected"),
        (BatchSchedulerError::Unregister, "Unregistering worker"),
        (BatchSchedulerError::Scheduling(reason.clone()), "Error during scheduling no workers"),
        (BatchSchedulerError::NetworkError(reason), "Network error"),
        (BatchSchedulerError::SendMetricsError, "Send Metrics Error"),
    ];
    for (error, text) in texts {
        assert_eq!(error.to_string(), text);
    }
}
