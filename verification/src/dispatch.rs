//! What a scheduler asks of workers and parameter servers, and the jobs it dispatches to them.

use vstd::prelude::*;

use crate::executor::parameter_server::{
    aggregation_of, finish_round, is_reserved, law_round_outcome, lemma_momentum_is_kept,
    performed_all, step_views, Step, Store, TensorOp, MOMENTUM_FILE,
};
use crate::ids::{PeerId, Uuid};
use crate::messages::executor::{
    AggregateExecutorConfig, AggregateExecutorDescriptor, Executor, ExecutorDescriptor, JobSpec,
    Model, Nesterov, Preprocessor, TrainExecutorConfig, TrainExecutorDescriptor, WorkerSpec,
};
use crate::messages::reference::{
    Fetch, Receive, Reference, ReferenceView, SelectionStrategy, Send,
};
use crate::pool::{peers_of, Memberships, PoolConfig, PoolMembers};
use crate::scheduler_config::{hub_files, DiLoCo, ModelSource, PoolSettings, PreprocessorSource};
use crate::scheduling::batch_scheduler::names_all;
use crate::text::texts;
use crate::time::{Duration, NANOS_PER_MILLI};

verus! {

pub const TRAIN_EXECUTOR_NAME: &'static str = "diloco-transformer";

pub const PARAMETER_SERVER_EXECUTOR_NAME: &'static str = "parameter-server";

/// Whether `spec` asks for the resources of a training worker, and for its executor alone.
pub open spec fn asks_for_worker(spec: WorkerSpec, job: DiLoCo) -> bool {
    &&& spec.resources == job.resources.worker
    &&& spec.executor@.len() == 1
    &&& spec.executor@[0] matches ExecutorDescriptor::Train(descriptor) && descriptor.text()
        == TRAIN_EXECUTOR_NAME@
}

/// Whether `spec` asks for the resources of a parameter server, and for its executor alone.
pub open spec fn asks_for_parameter_server(spec: WorkerSpec, job: DiLoCo) -> bool {
    &&& spec.resources == job.resources.parameter_server
    &&& spec.executor@.len() == 1
    &&& spec.executor@[0] matches ExecutorDescriptor::Aggregate(descriptor) && descriptor.text()
        == PARAMETER_SERVER_EXECUTOR_NAME@
}

/// What is asked of a training worker.
pub fn worker_spec(job: &DiLoCo) -> (spec: WorkerSpec)
    ensures
        asks_for_worker(spec, *job),
{
    let mut executor: Vec<ExecutorDescriptor> = Vec::new();
    executor.push(ExecutorDescriptor::from(TrainExecutorDescriptor::new(TRAIN_EXECUTOR_NAME)));
    WorkerSpec { resources: job.resources.worker, executor }
}

/// What is asked of a parameter server.
pub fn parameter_server_spec(job: &DiLoCo) -> (spec: WorkerSpec)
    ensures
        asks_for_parameter_server(spec, *job),
{
    let mut executor: Vec<ExecutorDescriptor> = Vec::new();
    executor.push(
        ExecutorDescriptor::from(AggregateExecutorDescriptor::new(PARAMETER_SERVER_EXECUTOR_NAME)),
    );
    WorkerSpec { resources: job.resources.parameter_server, executor }
}

/// Whether a pool is sized as the settings say.
pub open spec fn sized_by(config: PoolConfig, settings: PoolSettings) -> bool {
    &&& config.min == settings.min
    &&& config.target == settings.target
    &&& config.grace.nanos == settings.grace_ms * NANOS_PER_MILLI
}

/// The pool of training workers.
pub fn worker_pool_config(job: &DiLoCo) -> (config: PoolConfig)
    ensures
        config.name@ == "workers"@,
        asks_for_worker(config.spec, *job),
        config.price == job.resources.worker_price,
        sized_by(config, job.resources.worker_pool),
{
    let settings = job.resources.worker_pool;
    PoolConfig {
        name: "workers".to_owned(),
        spec: worker_spec(job),
        price: job.resources.worker_price,
        min: settings.min as usize,
        target: settings.target as usize,
        grace: Duration::from_millis(settings.grace_ms),
    }
}

/// The pool of parameter servers.
pub fn parameter_server_pool_config(job: &DiLoCo) -> (config: PoolConfig)
    ensures
        config.name@ == "parameter-servers"@,
        asks_for_parameter_server(config.spec, *job),
        config.price == job.resources.parameter_server_price,
        sized_by(config, job.resources.parameter_server_pool),
{
    let settings = job.resources.parameter_server_pool;
    PoolConfig {
        name: "parameter-servers".to_owned(),
        spec: parameter_server_spec(job),
        price: job.resources.parameter_server_price,
        min: settings.min as usize,
        target: settings.target as usize,
        grace: Duration::from_millis(settings.grace_ms),
    }
}

/// All of `peers`.
pub open spec fn all_of(peers: Seq<PeerId>) -> ReferenceView {
    ReferenceView::Peers { peers, strategy: SelectionStrategy::All, resource: None }
}

/// Whether `spec` lets a parameter server receive updates from all of `workers`, optimize with
/// `optimizer` and send the results to all of `workers`.
pub open spec fn is_parameter_server_job(
    spec: JobSpec,
    job_id: Uuid,
    workers: Seq<PeerId>,
    optimizer: Nesterov,
) -> bool {
    &&& spec.job_id == job_id
    &&& spec.executor matches Executor::Aggregate(executor)
    &&& executor.described_by().text() == PARAMETER_SERVER_EXECUTOR_NAME@
    &&& executor.configuration().updates.reference()@ == all_of(workers)
    &&& executor.configuration().results.reference()@ == all_of(workers)
    &&& executor.configuration().optimizer == optimizer
}

/// The job of a parameter server that serves those who are members of the worker pool now.
pub fn parameter_server_job(
    job_id: Uuid,
    workers: &PoolMembers,
    shared: &Memberships,
    job: &DiLoCo,
) -> (spec: JobSpec)
    ensures
        is_parameter_server_job(
            spec,
            job_id,
            peers_of(shared.of(workers.id())),
            job.outer_optimizer,
        ),
{
    let config = AggregateExecutorConfig {
        updates: Receive::peers(workers.peers(shared)),
        results: Send::peers(workers.peers(shared), SelectionStrategy::All),
        optimizer: job.outer_optimizer,
    };
    let executor = AggregateExecutorDescriptor::new(PARAMETER_SERVER_EXECUTOR_NAME).into_executor(
        config,
    );
    JobSpec { job_id, executor: Executor::from(executor) }
}

/// Whether `model` is what `source` names.
pub open spec fn is_model_of(model: Model, source: ModelSource) -> bool {
    &&& model.task == source.model_type
    &&& model.artifact.reference()@ == hub_files(
        source.repository,
        source.revision,
        source.filenames,
        source.token,
    )
    &&& model.input_names@ == source.input_names@
}

/// Whether `preprocessor` is what `source` names.
pub open spec fn is_preprocessor_of(
    preprocessor: Option<Preprocessor>,
    source: Option<PreprocessorSource>,
) -> bool {
    match (preprocessor, source) {
        (Some(preprocessor), Some(source)) => {
            &&& preprocessor.task == source.preprocessor_type
            &&& preprocessor.artifact.reference()@ == hub_files(
                source.repository,
                source.revision,
                source.filenames,
                source.token,
            )
            &&& preprocessor.input_names@ == source.input_names@
        },
        (None, None) => true,
        _ => false,
    }
}

/// Whether `spec` lets a worker train the model of `job` on data that `scheduler` assigns, with
/// `server` as the one peer that it sends updates to and receives results from.
pub open spec fn is_worker_job(
    spec: JobSpec,
    job_id: Uuid,
    scheduler: PeerId,
    server: PeerId,
    job: DiLoCo,
    batch_size: u32,
) -> bool {
    &&& spec.job_id == job_id
    &&& spec.executor matches Executor::Train(executor)
    &&& executor.described_by().text() == TRAIN_EXECUTOR_NAME@
    &&& is_model_of(executor.configuration().model, job.model)
    &&& executor.configuration().data.reference()@ == ReferenceView::Scheduler {
        peer: scheduler,
        dataset: job.dataset.dataset@,
    }
    &&& executor.configuration().updates.reference()@ == all_of(seq![server])
    &&& executor.configuration().results.reference()@ == all_of(seq![server])
    &&& executor.configuration().optimizer == job.inner_optimizer
    &&& executor.configuration().batch_size == batch_size
    &&& is_preprocessor_of(executor.configuration().preprocessor, job.preprocessor)
    &&& executor.configuration().scheduler is None
}

fn only(peer: PeerId) -> (peers: Vec<PeerId>)
    ensures
        peers@ == seq![peer],
{
    let mut peers: Vec<PeerId> = Vec::new();
    peers.push(peer);
    assert(peers@ =~= seq![peer]);
    peers
}

/// The job of a training worker.
pub fn worker_job(
    job_id: Uuid,
    scheduler: PeerId,
    server: PeerId,
    job: &DiLoCo,
    batch_size: u32,
) -> (spec: JobSpec)
    ensures
        is_worker_job(spec, job_id, scheduler, server, *job, batch_size),
{
    let preprocessor = match &job.preprocessor {
        Some(source) => Some(Preprocessor::from(source.clone())),
        None => None,
    };
    let config = TrainExecutorConfig {
        model: Model::from(job.model.clone()),
        data: Fetch::scheduler(scheduler, job.dataset.dataset.clone()),
        updates: Send::peers(only(server), SelectionStrategy::All),
        results: Receive::peers(only(server)),
        optimizer: job.inner_optimizer,
        batch_size,
        preprocessor,
        scheduler: None,
    };
    let executor = TrainExecutorDescriptor::new(TRAIN_EXECUTOR_NAME).into_executor(config);
    JobSpec { job_id, executor: Executor::from(executor) }
}

/// The batch size of a worker: `share` is how many times the worker has the GPU that was asked
/// for, rounded down and cut off at the ends of the range, or nothing where that is no number. It
/// is cut off at `max`, which also stands in for what is no number.
pub fn cap_batch_size(share: Option<u32>, max: Option<u32>) -> (batch_size: u32)
    ensures
        batch_size == match (share, max) {
            (Some(share), Some(max)) => if share <= max {
                share
            } else {
                max
            },
            (Some(share), None) => share,
            (None, Some(max)) => max,
            (None, None) => u32::MAX,
        },
        max matches Some(max) ==> batch_size <= max,
        share matches Some(share) ==> batch_size <= share,
        max is Some || share is Some ==> Some(batch_size) == max || Some(batch_size) == share,
        max is None && share is None ==> batch_size == 0xFFFF_FFFF,
{
    let max: u32 = match max {
        Some(max) => max,
        None => u32::MAX,
    };
    match share {
        Some(share) => if share <= max {
            share
        } else {
            max
        },
        None => max,
    }
}

/// The parameter server that workers are pointed to: the one that joined last.
#[derive(Clone, Copy, Debug)]
pub struct ServerSlot {
    server: Option<PeerId>,
}

/// What a worker that needs a parameter server gets.
#[derive(Clone, Copy, Debug)]
pub enum ServerPoll {
    Ready(PeerId),
    /// There is none yet: look again after this time.
    WaitFor(Duration),
}

impl ServerSlot {
    /// The parameter server that joined last, if any did.
    pub closed spec fn latest(self) -> Option<PeerId> {
        self.server
    }

    pub fn new() -> (slot: ServerSlot)
        ensures
            slot.latest() is None,
    {
        ServerSlot { server: None }
    }

    /// A parameter server joined.
    pub fn joined(&mut self, server: PeerId)
        ensures
            final(self).latest() == Some(server),
    {
        self.server = Some(server);
    }

    pub fn poll(&self) -> (poll: ServerPoll)
        ensures
            self.latest() matches Some(server) ==> poll == ServerPoll::Ready(server),
            self.latest() is None ==> poll == ServerPoll::WaitFor(
                (Duration { nanos: (500 * NANOS_PER_MILLI) as u128 }),
            ),
    {
        match self.server {
            Some(server) => ServerPoll::Ready(server),
            None => ServerPoll::WaitFor(Duration::from_millis(500)),
        }
    }
}

/// A dispatched job runs on what was asked for: each job names the executor that the workers of
/// its pool were asked to have.
pub proof fn law_jobs_run_where_they_were_asked_for(
    worker: WorkerSpec,
    server: WorkerSpec,
    worker_job: JobSpec,
    server_job: JobSpec,
    job: DiLoCo,
    job_id: Uuid,
    scheduler: PeerId,
    primary: PeerId,
    workers: Seq<PeerId>,
    batch_size: u32,
)
    requires
        asks_for_worker(worker, job),
        asks_for_parameter_server(server, job),
        is_worker_job(worker_job, job_id, scheduler, primary, job, batch_size),
        is_parameter_server_job(server_job, job_id, workers, job.outer_optimizer),
    ensures
        worker_job.executor.described_by() matches ExecutorDescriptor::Train(named)
            && worker.executor@[0] matches ExecutorDescriptor::Train(asked) && named.text()
            == asked.text(),
        server_job.executor.described_by() matches ExecutorDescriptor::Aggregate(named)
            && server.executor@[0] matches ExecutorDescriptor::Aggregate(asked) && named.text()
            == asked.text(),
        worker_job.job_id == server_job.job_id,
{
}

/// A parameter server aggregates as the job is configured: with the learning rate and with the
/// momentum of its outer optimizer, updates from all who are members of the worker pool, and
/// results to all of them.
pub proof fn law_servers_aggregate_as_configured(
    job_id: Uuid,
    workers: &PoolMembers,
    shared: &Memberships,
    job: &DiLoCo,
    spec: JobSpec,
)
    requires
        call_ensures(parameter_server_job, (job_id, workers, shared, job), spec),
    ensures
        spec.job_id == job_id,
        spec.executor matches Executor::Aggregate(executor) && {
            let config = executor.configuration();
            &&& executor.described_by().text() == "parameter-server"@
            &&& config.optimizer.learning_rate == job.outer_optimizer.learning_rate
            &&& config.optimizer.momentum == job.outer_optimizer.momentum
            &&& names_all(config.updates.reference(), shared.of(workers.id()))
            &&& names_all(config.results.reference(), shared.of(workers.id()))
        },
{
}

/// What a parameter server sends in a round of a job that was dispatched to it is made with the
/// learning rate and the momentum that the job is configured with, and what it reports is about
/// that job.
pub proof fn law_rounds_use_the_configured_optimizer<A>(
    job_id: Uuid,
    workers: &PoolMembers,
    shared: &Memberships,
    job: &DiLoCo,
    spec: JobSpec,
    config: &AggregateExecutorConfig,
    average: String,
    steps: Vec<Step>,
    store: Store<A>,
    apply: spec_fn(TensorOp, A, A) -> A,
)
    requires
        call_ensures(parameter_server_job, (job_id, workers, shared, job), spec),
        call_ensures(aggregation_of, (&spec,), Ok(config)),
        call_ensures(
            finish_round,
            (
                average,
                store.files.dom().contains(MOMENTUM_FILE@),
                config.optimizer,
                spec.job_id,
            ),
            steps,
        ),
        store.files.dom().contains(average@),
        !is_reserved(average@),
    ensures
        ({
            let after = performed_all(store, step_views(steps@), apply);
            let averaged = store.files[average@];
            let momentum = if store.files.dom().contains(MOMENTUM_FILE@) {
                apply(
                    TensorOp::Momentum { momentum: job.outer_optimizer.momentum },
                    averaged,
                    store.files[MOMENTUM_FILE@],
                )
            } else {
                averaged
            };
            &&& after.files[MOMENTUM_FILE@] == momentum
            &&& after.sent == store.sent.push(
                apply(
                    TensorOp::Nesterov {
                        momentum: job.outer_optimizer.momentum,
                        learning_rate: job.outer_optimizer.learning_rate,
                    },
                    averaged,
                    momentum,
                ),
            )
            &&& after.reports.len() == store.reports.len() + 1
            &&& after.reports.last().job_id == job_id
        }),
{
    law_round_outcome(store, average@, config.optimizer, spec.job_id, apply);
    lemma_momentum_is_kept();
}

/// Whether `reference` names files of a repository of models.
pub open spec fn names_files(
    reference: Reference,
    repository: String,
    revision: Option<String>,
    filenames: Vec<String>,
    token: Option<String>,
) -> bool {
    &&& reference matches Reference::HuggingFace {
        repository: named,
        revision: at,
        filenames: files,
        token: with,
    }
    &&& named@ == repository@
    &&& at is Some <==> revision is Some
    &&& at is Some ==> at->0@ == revision->0@
    &&& files@.len() == filenames@.len()
    &&& forall|i: int| 0 <= i < filenames@.len() ==> (#[trigger] files@[i])@ == filenames@[i]@
    &&& with is Some <==> token is Some
    &&& with is Some ==> with->0@ == token->0@
}

/// Whether `reference` names the peer and nobody else.
pub open spec fn names_only(reference: Reference, peer: PeerId) -> bool {
    &&& reference matches Reference::Peers { peers, strategy, resource }
    &&& peers@.len() == 1
    &&& peers@[0] == peer
    &&& strategy == SelectionStrategy::All
    &&& resource is None
}

/// A worker trains as the job is configured: its model and its preprocessor, its dataset as the
/// scheduler assigns it, and its inner optimizer, in batches of the given size. It sends updates
/// to, and receives results from, the one parameter server that it was pointed to.
pub proof fn law_workers_train_as_configured(
    job_id: Uuid,
    scheduler: PeerId,
    server: PeerId,
    job: &DiLoCo,
    batch_size: u32,
    spec: JobSpec,
    i: int,
)
    requires
        call_ensures(worker_job, (job_id, scheduler, server, job, batch_size), spec),
    ensures
        spec.job_id == job_id,
        spec.executor matches Executor::Train(executor) && {
            let config = executor.configuration();
            &&& executor.described_by().text() == "diloco-transformer"@
            &&& config.batch_size == batch_size
            &&& config.optimizer.learning_rate == job.inner_optimizer.learning_rate
            &&& config.optimizer.betas == job.inner_optimizer.betas
            &&& config.optimizer.epsilon == job.inner_optimizer.epsilon
            &&& config.scheduler is None
            &&& names_only(config.updates.reference(), server)
            &&& names_only(config.results.reference(), server)
            &&& config.data.reference() matches Reference::Scheduler { peer, dataset }
            &&& peer == scheduler
            &&& dataset@ == job.dataset.dataset@
            &&& config.model.task == job.model.model_type
            &&& names_files(
                config.model.artifact.reference(),
                job.model.repository,
                job.model.revision,
                job.model.filenames,
                job.model.token,
            )
            &&& config.model.input_names@.len() == job.model.input_names@.len()
            &&& 0 <= i < job.model.input_names@.len() ==> config.model.input_names@[i]
                == job.model.input_names@[i]
            &&& config.preprocessor is Some <==> job.preprocessor is Some
            &&& config.preprocessor is Some ==> {
                let made = config.preprocessor->0;
                let source = job.preprocessor->0;
                &&& made.task == source.preprocessor_type
                &&& names_files(
                    made.artifact.reference(),
                    source.repository,
                    source.revision,
                    source.filenames,
                    source.token,
                )
                &&& made.input_names@.len() == source.input_names@.len()
                &&& 0 <= i < source.input_names@.len() ==> made.input_names@[i]
                    == source.input_names@[i]
            }
        },
{
    if let Executor::Train(executor) = spec.executor {
        let config = executor.configuration();
        lemma_names_files(
            config.model.artifact.reference(),
            job.model.repository,
            job.model.revision,
            job.model.filenames,
            job.model.token,
        );
        if config.preprocessor is Some {
            let source = job.preprocessor->0;
            lemma_names_files(
                config.preprocessor->0.artifact.reference(),
                source.repository,
                source.revision,
                source.filenames,
                source.token,
            );
        }
    }
}

proof fn lemma_names_files(
    reference: Reference,
    repository: String,
    revision: Option<String>,
    filenames: Vec<String>,
    token: Option<String>,
)
    requires
        reference@ == hub_files(repository, revision, filenames, token),
    ensures
        names_files(reference, repository, revision, filenames, token),
{
    if let Reference::HuggingFace { repository: _, revision: _, filenames: files, token: _ } =
        reference {
        assert(texts(files@) == texts(filenames@));
        assert(texts(files@).len() == files@.len());
        assert forall|i: int| 0 <= i < filenames@.len() implies (#[trigger] files@[i])@
            == filenames@[i]@ by {
            assert(texts(files@)[i] == files@[i]@);
            assert(texts(filenames@)[i] == filenames@[i]@);
        }
    }
}

/// What a pool asks for is what the job needs there: the resources that are configured for it, in
/// the price range that is configured for it, and the one executor that its jobs run on. It has
/// the minimum, the target and the grace period of its settings.
pub proof fn law_pools_ask_for_what_jobs_need(
    job: &DiLoCo,
    workers: PoolConfig,
    servers: PoolConfig,
    worker: WorkerSpec,
    server: WorkerSpec,
)
    requires
        call_ensures(worker_pool_config, (job,), workers),
        call_ensures(parameter_server_pool_config, (job,), servers),
        call_ensures(worker_spec, (job,), worker),
        call_ensures(parameter_server_spec, (job,), server),
    ensures
        workers.name@ == "workers"@,
        workers.spec.resources == job.resources.worker,
        workers.spec.executor@.len() == 1,
        workers.spec.executor@[0] matches ExecutorDescriptor::Train(named) && named.text()
            == "diloco-transformer"@,
        workers.price.bid == job.resources.worker_price.bid,
        workers.price.max == job.resources.worker_price.max,
        workers.min == job.resources.worker_pool.min,
        workers.target == job.resources.worker_pool.target,
        workers.grace.nanos == job.resources.worker_pool.grace_ms * 1_000_000,
        servers.name@ == "parameter-servers"@,
        servers.spec.resources == job.resources.parameter_server,
        servers.spec.executor@.len() == 1,
        servers.spec.executor@[0] matches ExecutorDescriptor::Aggregate(named) && named.text()
            == "parameter-server"@,
        servers.price.bid == job.resources.parameter_server_price.bid,
        servers.price.max == job.resources.parameter_server_price.max,
        servers.min == job.resources.parameter_server_pool.min,
        servers.target == job.resources.parameter_server_pool.target,
        servers.grace.nanos == job.resources.parameter_server_pool.grace_ms * 1_000_000,
        worker.resources == workers.spec.resources,
        worker.executor@.len() == 1,
        worker.executor@[0] matches ExecutorDescriptor::Train(named) && named.text()
            == "diloco-transformer"@,
        server.resources == servers.spec.resources,
        server.executor@.len() == 1,
        server.executor@[0] matches ExecutorDescriptor::Aggregate(named) && named.text()
            == "parameter-server"@,
{
}

/// The batch size of a worker is its share, unless that is no number or more than the maximum:
/// then it is the maximum. A larger share never makes for a smaller batch.
pub proof fn law_batches_are_shares_up_to_the_maximum(
    share: u32,
    larger: u32,
    max: u32,
    sizes: (u32, u32, u32, u32, u32),
)
    requires
        share <= larger,
        call_ensures(cap_batch_size, (Some(share), Some(max)), sizes.0),
        call_ensures(cap_batch_size, (Some(larger), Some(max)), sizes.1),
        call_ensures(cap_batch_size, (Some(share), None), sizes.2),
        call_ensures(cap_batch_size, (None, Some(max)), sizes.3),
        call_ensures(cap_batch_size, (None, None), sizes.4),
    ensures
        share <= max ==> sizes.0 == share,
        share > max ==> sizes.0 == max,
        sizes.0 <= sizes.1,
        sizes.2 == share,
        sizes.3 == max,
        sizes.4 == u32::MAX,
{
}

/// Workers are pointed to the parameter server that joined last, whichever joined before; until
/// one has, they look again after half a second.
pub proof fn law_workers_go_to_the_latest_server(
    empty: ServerSlot,
    slot: &mut ServerSlot,
    server: PeerId,
    early: ServerPoll,
    late: ServerPoll,
)
    requires
        call_ensures(ServerSlot::new, (), empty),
        call_ensures(ServerSlot::poll, (&empty,), early),
        call_ensures(ServerSlot::joined, (slot, server), ()),
        call_ensures(ServerSlot::poll, (final(slot),), late),
    ensures
        early matches ServerPoll::WaitFor(wait) && wait.nanos == 500_000_000,
        late matches ServerPoll::Ready(pointed_to) && pointed_to == server,
{
}

} // verus!
