use hypha::dispatch::{
    cap_batch_size, parameter_server_job, parameter_server_pool_config, parameter_server_spec,
    worker_job, worker_pool_config, worker_spec, ServerPoll, ServerSlot,
};
use hypha::ids::{PeerId, Uuid};
use hypha::messages::api;
use hypha::messages::dispatch_job;
use hypha::messages::executor::{
    AggregateExecutorDescriptor, Executor, ExecutorDescriptor, JobSpec, Model, ModelType,
    Preprocessor, PreprocessorType, TrainExecutorDescriptor, WorkerSpec,
};
use hypha::messages::headers::DataSlice;
use hypha::messages::job_status::{self, JobStatus};
use hypha::messages::reference::{Fetch, Receive, Reference, SelectionStrategy, Send};
use hypha::messages::renew_lease;
use hypha::number::Double;
use hypha::pool::{Memberships, Pool};
use hypha::resources::Resources;
use hypha::scheduler_config::{
    DiLoCo, Job, ModelSource, PoolSettings, PreprocessorSource, PriceRange, SchedulerConfig,
};
use hypha::task::{accepts, dispatch_outcome, dispatch_request, status_reported, Task};
use hypha::time::{Duration, SystemTime};
use hypha::worker::{LeaseStep, Worker, WorkerError};

fn peer(n: u128) -> PeerId {
    PeerId { code: 0x12, size: 32, d0: n, d1: 0, d2: 0, d3: 0 }
}

fn id(n: u128) -> Uuid {
    Uuid { bits: n }
}

fn double(value: f64) -> Double {
    Double { bits: value.to_bits() }
}

fn peers_in(reference: &Reference) -> (Vec<PeerId>, SelectionStrategy) {
    match reference {
        Reference::Peers { peers, strategy, resource: None } => (peers.clone(), *strategy),
        other => panic!("unexpected reference: {:?}", other),
    }
}

fn worker(n: u128) -> Worker {
    let spec = WorkerSpec { resources: Resources::default(), executor: vec![] };
    Worker::create(id(n), peer(n), spec, Resources::default(), double(1.0))
}

fn server_job() -> JobSpec {
    let job = DiLoCo::default();
    let mut shared = Memberships::new();
    let pool = Pool::new(&mut shared, worker_pool_config(&job));
    let members = pool.members();
    pool.allocated(&mut shared, Ok(&vec![worker(4), worker(5)]));
    parameter_server_job(id(1), &members, &shared, &job)
}

#[test]
fn the_default_job_trains_a_small_classifier() {
    let Job::Diloco(job) = SchedulerConfig::default().job;
    assert_eq!(job.model.repository, "hypha-space/lenet");
    assert_eq!(job.model.revision, None);
    assert_eq!(
        job.model.filenames,
        vec!["config.json", "model.safetensors", "configuration_lenet.py", "modeling_lenet.py"]
    );
    assert_eq!(job.model.token, None);
    assert_eq!(job.model.model_type, ModelType::ImageClassification);
    assert_eq!(job.model.input_names, vec!["pixel_values", "labels"]);
    let preprocessor = job.preprocessor.expect("a preprocessor");
    assert_eq!(preprocessor.repository, "hypha-space/lenet");
    assert_eq!(preprocessor.filenames, vec!["preprocessor_config.json"]);
    assert_eq!(preprocessor.preprocessor_type, PreprocessorType::Image);
    assert_eq!(preprocessor.input_names, vec!["images"]);
    assert_eq!(job.dataset.dataset, "mnist");
    assert_eq!(job.rounds.update_rounds, 100);
    assert_eq!(job.rounds.avg_samples_between_updates, 1200);
    assert_eq!(job.rounds.max_batch_size, Some(600));
    assert_eq!(job.inner_optimizer.learning_rate, double(1e-3));
    assert!(job.inner_optimizer.betas.is_none());
    assert!(job.inner_optimizer.epsilon.is_none());
    assert_eq!(job.outer_optimizer.learning_rate, double(0.7));
    assert_eq!(job.outer_optimizer.momentum, double(0.9));
    assert_eq!(job.resources.num_workers, 2);
    assert_eq!(
        job.resources.worker,
        Resources::default()
            .with_gpu(double(10.0))
            .with_cpu(double(1.0))
            .with_memory(double(1.0))
    );
    assert_eq!(
        job.resources.parameter_server,
        Resources { cpu: double(1.0), gpu: double(0.0), memory: double(1.0) }
    );
    let hundred = PriceRange { bid: double(100.0), max: double(100.0) };
    assert_eq!(job.resources.worker_price, hundred);
    assert_eq!(job.resources.parameter_server_price, hundred);
    assert_eq!(
        job.resources.worker_pool,
        PoolSettings { min: 2, target: 2, grace_ms: 10_000 }
    );
    assert_eq!(job.resources.parameter_server_pool, PoolSettings::default());
    assert!(job.model_destination.is_none());
}

#[test]
fn pools_have_a_grace_period_by_default() {
    assert_eq!(PoolSettings::default_grace_ms(), 10_000);
    assert_eq!(
        PoolSettings::default(),
        PoolSettings { min: 1, target: 1, grace_ms: 10_000 }
    );
}

#[test]
fn sources_become_artifacts() {
    let source = ModelSource {
        repository: "r".to_string(),
        revision: Some("main".to_string()),
        filenames: vec!["f".to_string()],
        token: Some("t".to_string()),
        model_type: ModelType::CausalLm,
        input_names: vec!["i".to_string()],
    };
    let model = Model::from(source.clone());
    assert_eq!(model.task, ModelType::CausalLm);
    assert_eq!(model.input_names, source.input_names);
    match model.artifact.as_ref() {
        Reference::HuggingFace { repository, revision, filenames, token } => {
            assert_eq!(*repository, source.repository);
            assert_eq!(*revision, source.revision);
            assert_eq!(*filenames, source.filenames);
            assert_eq!(*token, source.token);
        }
        other => panic!("unexpected reference: {:?}", other),
    }
    let source = PreprocessorSource {
        repository: "r".to_string(),
        revision: None,
        filenames: vec![],
        token: None,
        preprocessor_type: PreprocessorType::Tokenizer,
        input_names: vec!["i".to_string()],
    };
    let preprocessor = Preprocessor::from(source.clone());
    assert_eq!(preprocessor.task, PreprocessorType::Tokenizer);
    assert_eq!(preprocessor.input_names, source.input_names);
    assert!(matches!(
        preprocessor.artifact.as_ref(),
        Reference::HuggingFace { revision: None, token: None, .. }
    ));
}

#[test]
fn pools_are_configured_by_the_job() {
    let job = DiLoCo::default();
    let workers = worker_pool_config(&job);
    assert_eq!(workers.name, "workers");
    assert_eq!((workers.min, workers.target), (2, 2));
    assert_eq!(workers.grace, Duration::from_secs(10));
    assert_eq!(workers.price, job.resources.worker_price);
    assert_eq!(workers.spec.resources, job.resources.worker);
    let servers = parameter_server_pool_config(&job);
    assert_eq!(servers.name, "parameter-servers");
    assert_eq!((servers.min, servers.target), (1, 1));
    assert_eq!(servers.spec.resources, job.resources.parameter_server);
}

#[test]
fn jobs_run_on_what_was_asked_for() {
    let job = DiLoCo::default();
    let asked = worker_spec(&job);
    let spec = worker_job(id(1), peer(1), peer(2), &job, 7);
    assert_eq!(asked.executor, vec![ExecutorDescriptor::from(&spec.executor)]);
    let asked = parameter_server_spec(&job);
    assert_eq!(asked.executor, vec![ExecutorDescriptor::from(&server_job().executor)]);
}

#[test]
fn a_worker_job_points_to_its_server() {
    let job = DiLoCo::default();
    let spec = worker_job(id(3), peer(1), peer(2), &job, 7);
    assert_eq!(spec.job_id, id(3));
    let Executor::Train(executor) = spec.executor else {
        panic!("a worker trains");
    };
    assert_eq!(executor.descriptor().name(), "diloco-transformer");
    let config = executor.config();
    assert_eq!(config.batch_size, 7);
    assert_eq!(peers_in(config.updates.as_ref()), (vec![peer(2)], SelectionStrategy::All));
    assert_eq!(*config.results.get_peers(), vec![peer(2)]);
    assert!(matches!(
        config.data.as_ref(),
        Reference::Scheduler { peer: p, dataset } if *p == peer(1) && dataset == "mnist"
    ));
    assert!(config.preprocessor.is_some());
    assert!(config.scheduler.is_none());
    assert_eq!(config.optimizer.learning_rate, double(1e-3));
    assert_eq!(config.model.input_names, job.model.input_names);

    let bare = DiLoCo { preprocessor: None, ..DiLoCo::default() };
    let spec = worker_job(id(3), peer(1), peer(2), &bare, 7);
    assert!(matches!(
        spec.executor,
        Executor::Train(executor) if executor.config().preprocessor.is_none()
    ));
}

#[test]
fn a_server_job_serves_all_workers() {
    let Executor::Aggregate(executor) = server_job().executor else {
        panic!("a parameter server aggregates");
    };
    assert_eq!(executor.descriptor().name(), "parameter-server");
    let config = executor.config();
    assert_eq!(*config.updates.get_peers(), vec![peer(4), peer(5)]);
    assert_eq!(
        peers_in(config.results.as_ref()),
        (vec![peer(4), peer(5)], SelectionStrategy::All)
    );
    assert_eq!(config.optimizer.momentum, double(0.9));
}

#[test]
fn batches_are_capped() {
    assert_eq!(cap_batch_size(Some(700), Some(600)), 600);
    assert_eq!(cap_batch_size(Some(0), Some(600)), 0);
    assert_eq!(cap_batch_size(Some(700), None), 700);
    assert_eq!(cap_batch_size(None, Some(600)), 600);
    assert_eq!(cap_batch_size(None, None), u32::MAX);
    assert_eq!((f64::NAN).floor().min(600.0) as u32, 600);
    assert_eq!((f64::NAN).floor().min(f64::MAX) as u32, u32::MAX);
}

#[test]
fn workers_wait_for_a_server() {
    let mut slot = ServerSlot::new();
    assert!(matches!(
        slot.poll(),
        ServerPoll::WaitFor(wait) if wait == Duration::from_millis(500)
    ));
    slot.joined(peer(1));
    slot.joined(peer(2));
    assert!(matches!(slot.poll(), ServerPoll::Ready(server) if server == peer(2)));
}

fn dispatched() -> Result<api::Response, String> {
    Ok(api::Response::DispatchJob(dispatch_job::Response::Dispatched {
        id: id(1),
        timeout: SystemTime { nanos: 0 },
    }))
}

fn rejected() -> Result<api::Response, String> {
    Ok(api::Response::DispatchJob(dispatch_job::Response::Failed))
}

fn unexpected() -> Result<api::Response, String> {
    Ok(api::Response::JobStatus(job_status::Response {}))
}

#[test]
fn a_task_needs_every_worker() {
    let task = Task::try_new(id(7), &vec![dispatched(), dispatched()]).unwrap();
    assert_eq!(task.id(), id(7));
    assert!(Task::try_new(id(7), &vec![]).is_ok());

    let error = Task::try_new(id(7), &vec![dispatched(), rejected(), unexpected()]).unwrap_err();
    assert_eq!(error.to_string(), "Job dispatch failed: Worker rejected job");
    let error = Task::try_new(id(7), &vec![unexpected(), rejected()]).unwrap_err();
    assert_eq!(error.to_string(), "Job dispatch failed: Unexpected response type");
    let refused = Err("timeout".to_string());
    let error = dispatch_outcome(&refused).unwrap_err();
    assert_eq!(error.to_string(), "Job dispatch failed: Network error: timeout");
    assert!(dispatch_outcome(&dispatched()).is_ok());
    assert_ne!(Task::new_id(), Task::new_id());
}

#[test]
fn a_task_hears_its_own_reports() {
    let report = |task| {
        api::Request::JobStatus(job_status::Request { task_id: task, status: JobStatus::Finished })
    };
    assert!(accepts(id(7), &report(id(7))));
    assert!(!accepts(id(7), &report(id(8))));
    let renewal = api::Request::RenewLease(renew_lease::Request { id: id(7) });
    assert!(!accepts(id(7), &renewal));

    let (status, response) = status_reported((peer(1), report(id(7))));
    assert!(matches!(status, Some((from, JobStatus::Finished)) if from == peer(1)));
    assert!(matches!(response, api::Response::JobStatus(_)));
    let (status, response) = status_reported((peer(1), renewal));
    assert!(status.is_none());
    assert!(matches!(response, api::Response::JobStatus(_)));
}

#[test]
fn a_task_yields_its_reports_in_order() {
    let report = |task, status| {
        api::Request::JobStatus(job_status::Request { task_id: task, status })
    };
    let renewal = api::Request::RenewLease(renew_lease::Request { id: id(7) });
    let requests = vec![
        (peer(1), report(id(7), JobStatus::Running)),
        (peer(2), report(id(8), JobStatus::Failed)),
        (peer(3), renewal),
        (peer(2), report(id(7), JobStatus::Failed)),
        (peer(1), report(id(7), JobStatus::Finished)),
    ];
    let mut items = Vec::new();
    for request in requests {
        if accepts(id(7), &request.1) {
            items.extend(status_reported(request).0);
        }
    }
    assert_eq!(items.len(), 3);
    assert!(matches!(items[0], (from, JobStatus::Running) if from == peer(1)));
    assert!(matches!(items[1], (from, JobStatus::Failed) if from == peer(2)));
    assert!(matches!(items[2], (from, JobStatus::Finished) if from == peer(1)));
}

#[test]
fn descriptors_are_their_names() {
    for name in ["", "a", "diloco-transformer", "parameter server"] {
        let train = TrainExecutorDescriptor::new(name);
        let aggregate = AggregateExecutorDescriptor::new(name);
        assert_eq!(train.name(), name);
        assert_eq!(aggregate.name(), name);
        assert_eq!(train, TrainExecutorDescriptor::new(name));
        assert_eq!(aggregate, AggregateExecutorDescriptor::new(name));
        assert_ne!(train, TrainExecutorDescriptor::new("other"));
        assert_ne!(aggregate, AggregateExecutorDescriptor::new("other"));
        assert_ne!(ExecutorDescriptor::from(train), ExecutorDescriptor::from(aggregate));
    }
}

#[test]
fn a_dispatch_names_task_and_job() {
    match dispatch_request(id(7), server_job()) {
        api::Request::DispatchJob(request) => {
            assert_eq!(request.id, id(7));
            assert_eq!(request.spec.job_id, id(1));
        }
        other => panic!("unexpected request: {:?}", other),
    }
}

fn renewed(timeout: i128) -> Result<api::Response, String> {
    Ok(api::Response::RenewLease(renew_lease::Response::Renewed {
        id: id(1),
        timeout: SystemTime { nanos: timeout },
    }))
}

#[test]
fn leases_are_renewed_in_time() {
    let worker = Worker::create(
        id(5),
        peer(1),
        WorkerSpec { resources: Resources::default(), executor: vec![] },
        Resources::default().with_gpu(double(2.0)),
        double(1.5),
    );
    assert_eq!(worker.lease_id(), id(5));
    assert_eq!(worker.peer_id(), peer(1));
    assert_eq!(worker.price(), double(1.5));
    assert_eq!(worker.resources().gpu(), double(2.0));
    assert!(worker.spec().executor.is_empty());
    assert!(matches!(
        worker.renewal(),
        api::Request::RenewLease(request) if request.id == id(5)
    ));

    let now = SystemTime { nanos: 1_000 };
    let wait = |reply| match Worker::renewed(reply, now) {
        LeaseStep::RenewIn(wait) => wait.nanos,
        other => panic!("unexpected step: {:?}", other),
    };
    assert_eq!(wait(renewed(1_300)), 200);
    assert_eq!(wait(renewed(1_005)), 2);
    assert_eq!(wait(renewed(1_000)), 0);
    assert_eq!(wait(renewed(999)), 4_000_000_000);
}

#[test]
fn a_lost_lease_loses_the_worker() {
    let now = SystemTime { nanos: 0 };
    let failed = Ok(api::Response::RenewLease(renew_lease::Response::Failed));
    let stop = |reply| match Worker::renewed(reply, now) {
        LeaseStep::Stop(error) => error.to_string(),
        other => panic!("unexpected step: {:?}", other),
    };
    assert_eq!(stop(failed), "Lease expired");
    assert_eq!(stop(Err("reset".to_string())), "Network error");
    assert_eq!(stop(unexpected()), "Job dispatch failed: Unexpected response");
    let torn_down = Worker::exit(None).unwrap_err();
    assert_eq!(torn_down.to_string(), "Worker disconnected");
    assert!(Worker::exit(Some(Ok(()))).is_ok());
    let lost = Worker::exit(Some(Err(WorkerError::LeaseExpired)));
    assert_eq!(lost.unwrap_err().to_string(), "Lease expired");
}

#[test]
fn references_limit_directions() {
    let to = |strategy| Reference::Peers { peers: vec![peer(1)], strategy, resource: None };
    let uri = || Reference::Uri { value: "file:///x".to_string() };
    assert!(Fetch::try_from(uri()).is_ok());
    assert!(Send::try_from(to(SelectionStrategy::Random)).is_ok());
    assert_eq!(Send::try_from(uri()).err(), Some("Send can only be created from Peers"));
    assert_eq!(
        Receive::try_from(to(SelectionStrategy::One)).err(),
        Some("Receive requires SelectionStrategy::All")
    );
    assert_eq!(Receive::try_from(uri()).err(), Some("Receive can only be created from Peers"));

    let receive = Receive::try_from(to(SelectionStrategy::All)).unwrap();
    assert_eq!(*receive.get_peers(), vec![peer(1)]);
    let back = Receive::try_from(Reference::from(receive)).unwrap();
    assert_eq!(*back.get_peers(), vec![peer(1)]);
    let send = Send::try_from(Reference::from(Send::peers(vec![peer(2)], SelectionStrategy::One)));
    assert_eq!(
        peers_in(send.unwrap().as_ref()),
        (vec![peer(2)], SelectionStrategy::One)
    );
}

#[test]
fn a_slice_is_fetched_from_one_peer() {
    let slice = DataSlice { dataset: "mnist".to_string(), index: 4 };
    match Reference::from(Fetch::data_peer(peer(1), slice)) {
        Reference::Peers { peers, strategy, resource: Some(slice) } => {
            assert_eq!(peers, vec![peer(1)]);
            assert_eq!(strategy, SelectionStrategy::One);
            assert_eq!((slice.dataset.as_str(), slice.index), ("mnist", 4));
        }
        other => panic!("unexpected reference: {:?}", other),
    }
}
