use hypha::ids::{PeerId, Uuid};
use hypha::messages::executor::{TrainExecutorDescriptor, WorkerSpec};
use hypha::number::Double;
use hypha::pool::{
    AllocatorError, JoinPoll, Memberships, Pool, PoolConfig, PoolError, PoolStream, StreamPoll,
    TaskPoll, WorkerDescriptor,
};
use hypha::pool_statistics::{Measurements, PoolWithStatistics};
use hypha::resources::Resources;
use hypha::scheduler_config::PriceRange;
use hypha::statistics::{RunningMean, RuntimeStatistic};
use hypha::time::{Duration, Instant};
use hypha::worker::{Worker, WorkerError};

fn peer(n: u128) -> PeerId {
    PeerId { code: 0x12, size: 32, d0: n, d1: 0, d2: 0, d3: 0 }
}

fn empty_spec() -> WorkerSpec {
    WorkerSpec { resources: Resources::default(), executor: Vec::new() }
}

fn test_worker(n: u128) -> Worker {
    Worker::create(
        Uuid::new_v4(),
        peer(n),
        empty_spec(),
        Resources::default(),
        Double { bits: 1.0f64.to_bits() },
    )
}

fn test_config(min: usize, target: usize) -> PoolConfig {
    PoolConfig {
        name: "test".to_string(),
        spec: empty_spec(),
        price: PriceRange::default(),
        min,
        target,
        grace: Duration::from_millis(200),
    }
}

fn at(millis: u64) -> Instant {
    Instant { nanos: Duration::from_millis(millis).nanos }
}

fn new_pool(config: PoolConfig) -> (Memberships, Pool) {
    let mut shared = Memberships::new();
    let pool = Pool::new(&mut shared, config);
    (shared, pool)
}

#[test]
fn pool_ready_when_min_reached() {
    let w1 = test_worker(1);
    let w2 = test_worker(2);
    let (mut shared, mut pool) = new_pool(test_config(2, 2));

    assert_eq!(pool.tick(&shared, at(0)).unwrap(), 2);
    let joined = pool.allocated(&mut shared, Ok(&vec![w1, w2]));
    assert_eq!(joined.len(), 2);
    assert_eq!(pool.members().len(&shared), 2);
    assert_eq!(pool.tick(&shared, at(10_000)).unwrap(), 0);
}

#[test]
fn pool_fails_grace_when_min_not_reached() {
    let (mut shared, mut pool) = new_pool(PoolConfig {
        grace: Duration::from_millis(100),
        ..test_config(2, 2)
    });

    let mut now = 0;
    let error = loop {
        match pool.tick(&shared, at(now)) {
            Ok(needed) => {
                assert_eq!(needed, 2);
                let joined = pool.allocated(&mut shared, Err(AllocatorError::NoOffersReceived));
                assert!(joined.is_empty());
                now += 50;
            }
            Err(error) => break error,
        }
    };
    assert_eq!(now, 100);
    assert!(matches!(error, PoolError::GraceExpired { .. }));
    assert_eq!(
        error.to_string(),
        "pool 'test' remained below minimum 2 workers after grace period expired"
    );
}

#[test]
fn pool_yields_workers_via_stream() {
    let (mut shared, mut pool) = new_pool(test_config(2, 2));
    let mut stream = PoolStream::new();
    let joined = pool.allocated(&mut shared, Ok(&vec![test_worker(1), test_worker(2)]));

    let mut count = 0;
    for worker in joined {
        assert!(stream.polls_task());
        match stream.poll_next(TaskPoll::Pending, || JoinPoll::Worker(worker)) {
            StreamPoll::Item(Ok(given)) => assert_eq!(given, worker),
            other => panic!("unexpected item: {:?}", other),
        }
        count += 1;
    }
    assert_eq!(count, 2);
    let item = stream.poll_next(TaskPoll::Pending, || JoinPoll::Pending);
    assert!(matches!(item, StreamPoll::Pending));
    let item = stream.poll_next(TaskPoll::Pending, || JoinPoll::Closed);
    assert!(matches!(item, StreamPoll::End));
}

#[test]
fn members_updated_on_worker_exit() {
    let w1 = test_worker(1);
    let peer_id = w1.peer_id();
    let (mut shared, mut pool) = new_pool(PoolConfig {
        grace: Duration::from_secs(10),
        ..test_config(1, 1)
    });

    assert!(pool.members().is_empty(&shared));
    pool.allocated(&mut shared, Ok(&vec![w1]));
    assert_eq!(pool.members().len(&shared), 1);
    let first = pool.members().iter(&shared).next().expect("expected one member");
    assert_eq!(first.peer_id, peer_id);

    pool.exited(&mut shared, peer_id);
    assert!(pool.members().is_empty(&shared));
}

#[test]
fn pool_enters_grace_after_lease_failure() {
    let worker = test_worker(1);
    let peer_id = worker.peer_id();
    let (mut shared, mut pool) = new_pool(PoolConfig {
        grace: Duration::from_millis(50),
        ..test_config(1, 1)
    });

    assert_eq!(pool.tick(&shared, at(0)).unwrap(), 1);
    pool.allocated(&mut shared, Ok(&vec![worker]));
    assert_eq!(pool.tick(&shared, at(50)).unwrap(), 0);

    let ended = Worker::exit(Some(Err(WorkerError::LeaseExpired)));
    assert!(matches!(ended, Err(WorkerError::LeaseExpired)));
    pool.exited(&mut shared, peer_id);
    assert!(pool.members().is_empty(&shared));

    assert_eq!(pool.tick(&shared, at(100)).unwrap(), 1);
    let err = pool.tick(&shared, at(150)).unwrap_err();
    assert!(matches!(err, PoolError::GraceExpired { .. }));
}

#[test]
fn pool_with_stats_updates_and_prunes() {
    let worker = test_worker(1);
    let peer_id = worker.peer_id();
    let (mut shared, pool) = new_pool(test_config(0, 1));
    let mut measurements = Measurements::<RunningMean>::new();
    let mut pool_with_stats = PoolWithStatistics::<RunningMean>::new(pool, &mut measurements);
    pool_with_stats.pool().allocated(&mut shared, Ok(&vec![worker]));

    pool_with_stats.update(&mut measurements, &peer_id, 10);
    pool_with_stats.update(&mut measurements, &peer_id, 25);

    let statistics = pool_with_stats.statistics(&shared, &mut measurements);
    let first = statistics.first().expect("expected member with stats");
    assert_eq!(first.peer_id, peer_id);
    assert_eq!(first.statistic, Some(15));

    pool_with_stats.pool().exited(&mut shared, peer_id);
    assert!(pool_with_stats.statistics(&shared, &mut measurements).is_empty());
}

#[test]
fn stale_statistics_do_not_come_back() {
    let (mut shared, pool) = new_pool(test_config(0, 1));
    let mut measurements = Measurements::<RunningMean>::new();
    let mut pool = PoolWithStatistics::new(pool, &mut measurements);
    pool.pool().allocated(&mut shared, Ok(&vec![test_worker(1)]));
    pool.update(&mut measurements, &peer(1), 10);
    pool.update(&mut measurements, &peer(1), 30);
    pool.pool().exited(&mut shared, peer(1));
    pool.statistics(&shared, &mut measurements);
    pool.pool().allocated(&mut shared, Ok(&vec![test_worker(1)]));

    let statistics = pool.statistics(&shared, &mut measurements);
    assert_eq!(statistics[0].last_updated, None);
    assert_eq!(statistics[0].statistic, None);
}

#[test]
fn reports_of_workers_are_separate() {
    let (mut shared, pool) = new_pool(test_config(0, 2));
    let mut measurements = Measurements::<RunningMean>::new();
    let mut pool = PoolWithStatistics::new(pool, &mut measurements);
    let handle = pool.handle();
    pool.pool()
        .allocated(&mut shared, Ok(&vec![test_worker(1), test_worker(2), test_worker(3)]));
    handle.update(&mut measurements, &peer(1), 100);
    handle.update(&mut measurements, &peer(2), 1);
    handle.update(&mut measurements, &peer(1), 110);
    handle.update(&mut measurements, &peer(1), 140);
    handle.update(&mut measurements, &peer(2), 0);

    let statistics = handle.statistics(&shared, &mut measurements);
    assert_eq!(statistics.len(), 3);
    assert_eq!(statistics[0].last_updated, Some(140));
    assert_eq!(statistics[0].statistic, Some(20));
    assert_eq!(statistics[1].last_updated, Some(0));
    assert_eq!(statistics[1].statistic, Some(0));
    assert_eq!(statistics[2].last_updated, None);
    assert_eq!(statistics[2].statistic, None);
    assert_eq!(handle.members().peers(&shared), vec![peer(1), peer(2), peer(3)]);
}

#[test]
fn handles_on_a_table_share_it() {
    let (mut shared, pool) = new_pool(test_config(0, 1));
    let mut measurements = Measurements::<RunningMean>::new();
    let mut measured = PoolWithStatistics::new(pool, &mut measurements);
    let other = Pool::new(&mut shared, test_config(0, 1));
    let other = PoolWithStatistics::new(other, &mut measurements);
    let handle = measured.handle();
    let copy = handle.clone();
    measured.pool().allocated(&mut shared, Ok(&vec![test_worker(1)]));
    handle.update(&mut measurements, &peer(1), 3);
    copy.update(&mut measurements, &peer(1), 8);
    assert_eq!(measured.statistics(&shared, &mut measurements)[0].statistic, Some(5));
    assert_eq!(copy.statistics(&shared, &mut measurements)[0].last_updated, Some(8));
    assert!(other.statistics(&shared, &mut measurements).is_empty());
}

#[test]
fn handles_are_live() {
    let (mut shared, pool) = new_pool(test_config(0, 2));
    let members = pool.members();
    let handle = pool.handle();
    let other = Pool::new(&mut shared, test_config(0, 2)).handle();
    assert!(members.is_empty(&shared));
    pool.allocated(&mut shared, Ok(&vec![test_worker(1), test_worker(2)]));
    assert_eq!(members.len(&shared), 2);
    assert_eq!(handle.members().peers(&shared), vec![peer(1), peer(2)]);
    pool.exited(&mut shared, peer(1));
    assert_eq!(members.load(&shared)[0].peer_id, peer(2));
    assert!(other.members().is_empty(&shared));
    assert_eq!(members.len(&shared.clone()), 1);
}

#[test]
fn a_pool_asks_for_what_it_is_configured_to_have() {
    let executor = TrainExecutorDescriptor::new("train").into();
    let config = PoolConfig {
        spec: WorkerSpec {
            resources: Resources::default().with_cpu(Double { bits: 7 }),
            executor: vec![executor],
        },
        price: PriceRange { bid: Double { bits: 1 }, max: Double { bits: 2 } },
        ..test_config(0, 3)
    };
    let (shared, mut pool) = new_pool(config.clone());
    let needed = pool.tick(&shared, at(0)).unwrap();
    let (spec, price, num) = pool.request(needed);
    assert_eq!(spec.resources, config.spec.resources);
    assert_eq!(spec.executor, config.spec.executor);
    assert_eq!(price, config.price);
    assert_eq!(num, 3);
}

#[test]
fn a_running_mean_rounds_down() {
    let mut mean = RunningMean::initial();
    assert_eq!(mean.value(), 0);
    mean.update(1);
    mean.update(2);
    mean.update(2);
    assert_eq!(mean.value(), 1);
    mean.update(u64::MAX);
    assert_eq!(mean.value(), 0x4000_0000_0000_0001);
}

#[test]
fn exit_reorders_nothing() {
    let (mut shared, mut pool) = new_pool(test_config(1, 5));
    pool.allocated(&mut shared, Ok(&vec![test_worker(5), test_worker(3), test_worker(4)]));
    pool.exited(&mut shared, peer(3));
    assert_eq!(pool.members().peers(&shared), vec![peer(5), peer(4)]);
    pool.allocated(&mut shared, Ok(&vec![test_worker(3)]));
    assert_eq!(pool.members().peers(&shared), vec![peer(5), peer(4), peer(3)]);
    pool.exited(&mut shared, peer(9));
    assert_eq!(pool.members().peers(&shared), vec![peer(5), peer(4), peer(3)]);
    pool.exited(&mut shared, peer(5));
    assert_eq!(pool.members().peers(&shared), vec![peer(4), peer(3)]);
}

#[test]
fn exit_of_a_peer_removes_all_its_workers() {
    let (mut shared, mut pool) = new_pool(test_config(1, 5));
    pool.allocated(&mut shared, Ok(&vec![test_worker(1), test_worker(2), test_worker(1)]));
    pool.exited(&mut shared, peer(1));
    assert_eq!(pool.members().peers(&shared), vec![peer(2)]);
}

#[test]
fn a_pool_asks_for_what_it_lacks() {
    let (mut shared, mut pool) = new_pool(test_config(0, 3));
    assert_eq!(pool.tick(&shared, at(0)).unwrap(), 3);
    pool.allocated(&mut shared, Ok(&vec![test_worker(1)]));
    assert_eq!(pool.tick(&shared, at(50)).unwrap(), 2);
    pool.allocated(&mut shared, Err(AllocatorError::Timeout));
    pool.allocated(&mut shared, Err(AllocatorError::Other("no network".to_string())));
    assert_eq!(pool.tick(&shared, at(100)).unwrap(), 2);
    pool.allocated(&mut shared, Ok(&vec![test_worker(2), test_worker(3), test_worker(4)]));
    assert_eq!(pool.tick(&shared, at(150)).unwrap(), 0);
}

#[test]
fn recovery_grants_the_whole_grace_again() {
    let (mut shared, mut pool) = new_pool(test_config(1, 1));
    assert!(pool.tick(&shared, at(0)).is_ok());
    assert!(pool.tick(&shared, at(199)).is_ok());
    pool.allocated(&mut shared, Ok(&vec![test_worker(1)]));
    assert!(pool.tick(&shared, at(250)).is_ok());
    pool.exited(&mut shared, peer(1));
    assert!(pool.tick(&shared, at(300)).is_ok());
    assert!(pool.tick(&shared, at(499)).is_ok());
    assert!(pool.tick(&shared, at(500)).is_err());
}

#[test]
fn a_failure_costs_no_worker() {
    let workers: Vec<WorkerDescriptor> = (1..4)
        .map(|number| WorkerDescriptor { peer_id: peer(number), resources: Resources::default() })
        .collect();
    let mut queue = workers.clone().into_iter();
    let mut poll = || match queue.next() {
        Some(worker) => JoinPoll::Worker(worker),
        None => JoinPoll::Closed,
    };
    let mut stream = PoolStream::new();
    let failure = PoolError::GraceExpired { name: "p".to_string(), min: 1 };
    let item = stream.poll_next(TaskPoll::Failed(failure), &mut poll);
    assert!(matches!(item, StreamPoll::Item(Err(PoolError::GraceExpired { .. }))));
    for worker in workers {
        let item = stream.poll_next(TaskPoll::Finished, &mut poll);
        assert!(matches!(item, StreamPoll::Item(Ok(given)) if given == worker));
    }
    for _ in 0..2 {
        let item = stream.poll_next(TaskPoll::Finished, &mut poll);
        assert!(matches!(item, StreamPoll::End));
    }
}

#[test]
fn a_failed_task_is_reported_once() {
    let worker = WorkerDescriptor { peer_id: peer(1), resources: Resources::default() };
    let failure = || PoolError::GraceExpired { name: "p".to_string(), min: 1 };

    let mut stream = PoolStream::new();
    let item = stream.poll_next(TaskPoll::Failed(failure()), || panic!("no worker is taken"));
    assert!(matches!(item, StreamPoll::Item(Err(PoolError::GraceExpired { min: 1, .. }))));
    assert!(!stream.polls_task());
    let item = stream.poll_next(TaskPoll::Failed(failure()), || JoinPoll::Worker(worker));
    assert!(matches!(item, StreamPoll::Item(Ok(given)) if given == worker));
    let item = stream.poll_next(TaskPoll::Finished, || JoinPoll::Closed);
    assert!(matches!(item, StreamPoll::End));

    let mut stream = PoolStream::new();
    let reason = "cancelled".to_string();
    let item = stream.poll_next(TaskPoll::NotJoined(reason), || JoinPoll::Worker(worker));
    match item {
        StreamPoll::Item(Err(error)) => {
            assert_eq!(error.to_string(), "pool task failed to join");
        }
        other => panic!("unexpected item: {:?}", other),
    }
    assert!(!stream.polls_task());

    let mut stream = PoolStream::new();
    let item = stream.poll_next(TaskPoll::Finished, || JoinPoll::Pending);
    assert!(matches!(item, StreamPoll::Pending));
    assert!(!stream.polls_task());
}

#[test]
fn members_are_walked_in_order() {
    let (mut shared, pool) = new_pool(test_config(0, 2));
    pool.allocated(&mut shared, Ok(&vec![test_worker(2), test_worker(1)]));
    let mut iter = pool.members().iter(&shared);
    assert_eq!(iter.next().map(|w| w.peer_id), Some(peer(2)));
    pool.exited(&mut shared, peer(1));
    assert_eq!(iter.next().map(|w| w.peer_id), Some(peer(1)));
    assert_eq!(iter.next(), None);
    assert_eq!(iter.next(), None);
}

#[test]
fn a_descriptor_is_named_after_its_peer() {
    let worker = test_worker(7);
    let descriptor = WorkerDescriptor::from(&worker);
    assert_eq!(descriptor.to_string(), peer(7).to_base58());
    assert!(descriptor.to_string().starts_with("Qm"));
}
