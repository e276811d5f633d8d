//! The batch scheduler: answers each status report of an executor with the next action.

use vstd::prelude::*;

use crate::ids::{PeerId, Uuid};
use crate::messages::action::{
    ActionRequest, ActionResponse, ActionView, AggregateAction, AggregateActionView, AggregateError,
    AggregateStatus, ExecutorAction, ExecutorStatus, TrainAction, TrainActionView, TrainError,
    TrainStatus,
};
use crate::messages::progress::Metrics;
use crate::messages::reference::{Reference, ReferenceView, SelectionStrategy};
use crate::pool::{
    law_oldest_stays_first, peers_of, without, Memberships, PoolHandle, WorkerDescriptor,
};
use crate::pool_statistics::{
    contains_peer, pruned, reported, LastUpdated, Measurements, PoolStatisticsHandle,
    WorkerDescriptorWithStats,
};
use crate::statistics::RuntimeStatistic;
use crate::time::{Duration, Instant, SystemTime, NANOS_PER_MILLI};

verus! {

/// Readings of both clocks at the time a report is handled.
#[derive(Clone, Copy, Debug)]
pub struct Clock {
    pub now: SystemTime,
    pub instant: Instant,
}

impl Clock {
    /// Whether the longest timeout that an answer may name is still a point of time.
    pub open spec fn in_range(self) -> bool {
        self.now.nanos + 30_000 * NANOS_PER_MILLI <= i128::MAX
    }
}

/// Tracks per-round update signals from workers so the scheduler can
/// decide when to instruct the parameter server to aggregate.
#[derive(Debug)]
pub struct RoundState {
    sent_updates: Vec<PeerId>,
    first_update_at: Option<Instant>,
    min_quorum: usize,
    grace: Duration,
    round: u32,
}

/// The state of a round.
#[verifier::ext_equal]
pub struct RoundView {
    /// Workers that have sent their update in this round.
    pub sent: Set<PeerId>,
    /// When the first of them did.
    pub first_update_at: Option<Instant>,
    pub min_quorum: nat,
    pub grace: Duration,
    pub round: u32,
}

impl View for RoundState {
    type V = RoundView;

    closed spec fn view(&self) -> RoundView {
        RoundView {
            sent: self.sent_updates@.to_set(),
            first_update_at: self.first_update_at,
            min_quorum: self.min_quorum as nat,
            grace: self.grace,
            round: self.round,
        }
    }
}

impl RoundView {
    /// The round once `peer` has sent its update at `at`.
    pub open spec fn with_update(self, peer: PeerId, at: Instant) -> RoundView {
        RoundView {
            sent: self.sent.insert(peer),
            first_update_at: match self.first_update_at {
                Some(first) => Some(first),
                None => Some(at),
            },
            ..self
        }
    }

    /// The round that follows.
    pub open spec fn next(self) -> RoundView {
        RoundView {
            sent: Set::empty(),
            first_update_at: None,
            round: if self.round < u32::MAX {
                (self.round + 1) as u32
            } else {
                u32::MAX
            },
            ..self
        }
    }

    /// Whether every worker has sent its update.
    pub open spec fn all_sent(self, workers: Seq<PeerId>) -> bool {
        forall|i: int| 0 <= i < workers.len() ==> self.sent.contains(#[trigger] workers[i])
    }

    /// Whether as many updates were sent as the quorum asks for, or as there are workers.
    pub open spec fn quorum_met(self, workers: Seq<PeerId>) -> bool {
        self.sent.len() >= self.min_quorum || self.sent.len() >= workers.len()
    }

    /// Whether the grace period since the first update is over.
    pub open spec fn timebox_elapsed(self, at: Instant) -> bool {
        self.first_update_at matches Some(first) && at.since(first) >= self.grace.nanos
    }

    /// Whether to aggregate: all workers have sent updates, or a quorum has and the grace period
    /// has elapsed since the first update in this round.
    pub open spec fn ready(self, workers: Seq<PeerId>, at: Instant) -> bool {
        self.all_sent(workers) || (self.quorum_met(workers) && self.timebox_elapsed(at))
    }
}

impl Default for RoundState {
    fn default() -> (state: RoundState)
        ensures
            state.wf(),
            state@ == RoundView::initial(0, Duration { nanos: 0 }),
    {
        RoundState::new(0, Duration { nanos: 0 })
    }
}

impl RoundView {
    /// The first round.
    pub open spec fn initial(min_quorum: nat, grace: Duration) -> RoundView {
        RoundView { sent: Set::empty(), first_update_at: None, min_quorum, grace, round: 0 }
    }
}

impl RoundState {
    /// No worker is listed twice.
    pub closed spec fn wf(self) -> bool {
        self.sent_updates@.no_duplicates()
    }

    pub fn new(min_quorum: usize, grace: Duration) -> (state: RoundState)
        ensures
            state.wf(),
            state@ == RoundView::initial(min_quorum as nat, grace),
    {
        let state = RoundState {
            sent_updates: Vec::new(),
            first_update_at: None,
            min_quorum,
            grace,
            round: 0,
        };
        assert(state@.sent =~= Set::empty());
        state
    }

    /// The round, counted from zero.
    pub fn round(&self) -> (round: u32)
        ensures
            round == self@.round,
    {
        self.round
    }

    /// Records that `peer` has sent its update.
    fn record(&mut self, peer: PeerId, at: Instant)
        requires
            old(self).wf(),
        ensures
            final(self).wf(),
            final(self)@ == old(self)@.with_update(peer, at),
    {
        if !contains_peer(&self.sent_updates, peer) {
            self.sent_updates.push(peer);
            proof {
                let before = old(self).sent_updates@;
                assert(self.sent_updates@ == before.push(peer));
                assert(self.sent_updates@.to_set() =~= before.to_set().insert(peer)) by {
                    assert forall|p: PeerId| self.sent_updates@.contains(p) <==> (
                    before.contains(p) || p == peer) by {
                        if before.contains(p) {
                            let i = before.index_of(p);
                            assert(self.sent_updates@[i] == p);
                        }
                        assert(self.sent_updates@[before.len() as int] == peer);
                    }
                }
            }
        } else {
            assert(self.sent_updates@.to_set() =~= self.sent_updates@.to_set().insert(peer));
        }
        if self.first_update_at.is_none() {
            self.first_update_at = Some(at);
        }
    }

    /// Starts the next round.
    fn advance(&mut self)
        ensures
            final(self).wf(),
            final(self)@ == old(self)@.next(),
    {
        self.sent_updates = Vec::new();
        self.first_update_at = None;
        self.round = self.round.saturating_add(1);
        assert(self@.sent =~= Set::empty());
    }

    /// Whether the updates that were sent suffice to aggregate.
    pub fn ready(&self, workers: &Vec<PeerId>, at: Instant) -> (ready: bool)
        requires
            self.wf(),
        ensures
            ready == self@.ready(workers@, at),
    {
        let mut all_sent: bool = true;
        for i in 0..workers.len()
            invariant
                all_sent == forall|j: int|
                    0 <= j < i ==> self@.sent.contains(#[trigger] workers@[j]),
        {
            if !contains_peer(&self.sent_updates, workers[i]) {
                all_sent = false;
            }
        }
        proof {
            self.sent_updates@.unique_seq_to_set();
        }
        let effective_quorum: usize = if self.min_quorum < workers.len() {
            self.min_quorum
        } else {
            workers.len()
        };
        let quorum_met = self.sent_updates.len() >= effective_quorum;
        let timebox_elapsed = match self.first_update_at {
            Some(first) => at.duration_since(first).nanos >= self.grace.nanos,
            None => false,
        };
        all_sent || (quorum_met && timebox_elapsed)
    }
}

#[derive(Clone, Debug)]
pub enum BatchSchedulerError {
    Disconnected,
    Unregister,
    Scheduling(String),
    NetworkError(String),
    SendMetricsError,
}

impl BatchSchedulerError {
    /// What the error says.
    pub open spec fn text(self) -> Seq<char> {
        match self {
            BatchSchedulerError::Disconnected => "Disconnected"@,
            BatchSchedulerError::Unregister => "Unregistering worker"@,
            BatchSchedulerError::Scheduling(reason) => "Error during scheduling "@ + reason@,
            BatchSchedulerError::NetworkError(_) => "Network error"@,
            BatchSchedulerError::SendMetricsError => "Send Metrics Error"@,
        }
    }

    pub fn to_string(&self) -> (text: String)
        ensures
            text@ == self.text(),
    {
        match self {
            BatchSchedulerError::Disconnected => "Disconnected".to_owned(),
            BatchSchedulerError::Unregister => "Unregistering worker".to_owned(),
            BatchSchedulerError::Scheduling(reason) => "Error during scheduling ".to_owned().concat(
                reason.as_str(),
            ),
            BatchSchedulerError::NetworkError(_) => "Network error".to_owned(),
            BatchSchedulerError::SendMetricsError => "Send Metrics Error".to_owned(),
        }
    }
}

/// What the scheduler does about one report: `report`, metrics with the peer they are from, is to
/// be handed on first, if there is any, then `response` is the answer, and `advance` says whether the round is over.
#[derive(Debug)]
pub struct Decision {
    pub report: Option<(PeerId, Metrics)>,
    pub response: ActionResponse,
    pub advance: bool,
}

/// A reference to `peers`, and to no slice of data.
pub open spec fn to_peers(peers: Seq<PeerId>, strategy: SelectionStrategy) -> ReferenceView {
    ReferenceView::Peers { peers, strategy, resource: None }
}

/// Milliseconds from `start` to `at`, modulo the range of the counter.
pub open spec fn millis_since(start: Instant, at: Instant) -> u64 {
    ((at.since(start) / (NANOS_PER_MILLI as int)) % 0x1_0000_0000_0000_0000) as u64
}

/// The first of the parameter servers, which is the oldest: it alone aggregates.
pub open spec fn primary(servers: Seq<PeerId>) -> Option<PeerId> {
    if servers.len() > 0 {
        Some(servers[0])
    } else {
        None
    }
}

/// The answer to a training worker.
pub open spec fn train_answer(
    status: TrainStatus,
    servers: Seq<PeerId>,
    now: SystemTime,
) -> TrainActionView {
    match status {
        TrainStatus::Idle => TrainActionView::ExecuteBatch,
        TrainStatus::BatchCompleted { .. } => if servers.len() == 0 {
            TrainActionView::Idle(now.plus(1_000))
        } else {
            TrainActionView::SendUpdate(
                to_peers(seq![servers[0]], SelectionStrategy::One),
                now.plus(30_000),
            )
        },
        TrainStatus::SentUpdate => if servers.len() == 0 {
            TrainActionView::Idle(now.plus(1_000))
        } else {
            TrainActionView::ApplyUpdate(to_peers(servers, SelectionStrategy::All), now.plus(30_000))
        },
        TrainStatus::AppliedUpdate { .. } => TrainActionView::ExecuteBatch,
        TrainStatus::Error(TrainError::Connection { .. }) => TrainActionView::Idle(now.plus(1_000)),
        TrainStatus::Error(TrainError::Other { .. }) => TrainActionView::Terminate,
        TrainStatus::Terminated => TrainActionView::Terminate,
    }
}

/// The answer to the parameter server `peer`.
pub open spec fn aggregate_answer(
    peer: PeerId,
    status: AggregateStatus,
    servers: Seq<PeerId>,
    workers: Seq<PeerId>,
    round: RoundView,
    clock: Clock,
) -> AggregateActionView {
    match status {
        AggregateStatus::Idle => if primary(servers) != Some(peer) {
            AggregateActionView::Idle(clock.now.plus(5_000))
        } else if workers.len() == 0 {
            AggregateActionView::Idle(clock.now.plus(1_000))
        } else if round.ready(workers, clock.instant) {
            AggregateActionView::AggregateUpdates(to_peers(workers, SelectionStrategy::All))
        } else {
            AggregateActionView::Idle(clock.now.plus(500))
        },
        AggregateStatus::AggregatedUpdates { .. } => if primary(servers) != Some(peer) {
            AggregateActionView::Idle(clock.now.plus(5_000))
        } else if workers.len() == 0 {
            AggregateActionView::Idle(clock.now.plus(1_000))
        } else {
            AggregateActionView::BroadcastUpdate(to_peers(workers, SelectionStrategy::All))
        },
        AggregateStatus::BroadcastedUpdate { .. } => AggregateActionView::Idle(
            clock.now.plus(1_000),
        ),
        AggregateStatus::Error(AggregateError::Connection { .. }) => AggregateActionView::Idle(
            clock.now.plus(1_000),
        ),
        AggregateStatus::Error(AggregateError::Other { .. }) => AggregateActionView::Terminate,
        AggregateStatus::Terminated => AggregateActionView::Terminate,
    }
}

/// The answer to the executor `peer`.
pub open spec fn answer(
    peer: PeerId,
    status: ExecutorStatus,
    servers: Seq<PeerId>,
    workers: Seq<PeerId>,
    round: RoundView,
    clock: Clock,
) -> ActionView {
    match status {
        ExecutorStatus::Train(status) => ActionView::Train(train_answer(status, servers, clock.now)),
        ExecutorStatus::Aggregate(status) => ActionView::Aggregate(
            aggregate_answer(peer, status, servers, workers, round, clock),
        ),
    }
}

/// The metrics that a report of `peer` carries, with the peer.
pub open spec fn carried_metrics(peer: PeerId, status: ExecutorStatus) -> Option<
    (PeerId, Metrics),
> {
    match status {
        ExecutorStatus::Train(TrainStatus::AppliedUpdate { round, metrics }) => Some(
            (peer, Metrics { round, metrics }),
        ),
        ExecutorStatus::Aggregate(
            AggregateStatus::BroadcastedUpdate { metrics: Some(metrics) },
        ) => Some((peer, Metrics { round: 0, metrics })),
        _ => None,
    }
}

/// Whether the report ends the round: the primary has broadcast the aggregated update.
pub open spec fn ends_round(peer: PeerId, status: ExecutorStatus, servers: Seq<PeerId>) -> bool {
    &&& status matches ExecutorStatus::Aggregate(AggregateStatus::BroadcastedUpdate { .. })
    &&& primary(servers) == Some(peer)
}

/// The round once the report was taken note of.
pub open spec fn noted(
    peer: PeerId,
    status: ExecutorStatus,
    round: RoundView,
    at: Instant,
) -> RoundView {
    if status matches ExecutorStatus::Train(TrainStatus::SentUpdate) {
        round.with_update(peer, at)
    } else {
        round
    }
}

/// The statistics once the report was taken note of: a completed batch is measured, and whoever
/// needs the list of workers has stale statistics pruned.
pub open spec fn measured<T: RuntimeStatistic>(
    peer: PeerId,
    status: ExecutorStatus,
    servers: Seq<PeerId>,
    table: Map<PeerId, (LastUpdated, T)>,
    workers: Seq<WorkerDescriptor>,
    since_start: u64,
) -> Map<PeerId, (LastUpdated, T)> {
    match status {
        ExecutorStatus::Train(TrainStatus::BatchCompleted { .. }) => reported(
            table,
            peer,
            since_start,
        ),
        ExecutorStatus::Train(TrainStatus::SentUpdate) => pruned(table, workers),
        ExecutorStatus::Aggregate(AggregateStatus::Idle)
        | ExecutorStatus::Aggregate(AggregateStatus::AggregatedUpdates { .. }) => if primary(
            servers,
        ) == Some(peer) {
            pruned(table, workers)
        } else {
            table
        },
        _ => table,
    }
}

fn first_of(peers: &Vec<PeerId>) -> (first: Option<PeerId>)
    ensures
        first == primary(peers@),
{
    if peers.len() > 0 {
        Some(peers[0])
    } else {
        None
    }
}

/// The peers of the current workers, after pruning stale statistics.
fn current_workers<T: RuntimeStatistic>(
    shared: &Memberships,
    measurements: &mut Measurements<T>,
    worker_pool: &PoolStatisticsHandle<T>,
) -> (workers: Vec<PeerId>)
    requires
        old(measurements).wf(),
        worker_pool.table_id() < old(measurements)@.len(),
    ensures
        final(measurements).wf(),
        final(measurements)@ == old(measurements)@.update(
            worker_pool.table_id() as int,
            pruned(
                old(measurements)@[worker_pool.table_id() as int],
                shared.of(worker_pool.id()),
            ),
        ),
        workers@ == peers_of(shared.of(worker_pool.id())),
{
    let list = worker_pool.statistics(shared, measurements);
    let mut workers: Vec<PeerId> = Vec::new();
    for i in 0..list.len()
        invariant
            workers@ == list@.take(i as int).map_values(|w: WorkerDescriptorWithStats| w.peer_id),
    {
        assert(list@.take(i + 1) =~= list@.take(i as int).push(list@[i as int]));
        workers.push(list[i].peer_id);
        assert(workers@ =~= list@.take(i + 1).map_values(
            |w: WorkerDescriptorWithStats| w.peer_id,
        ));
    }
    assert(list@.take(list@.len() as int) =~= list@);
    assert(workers@ =~= peers_of(shared.of(worker_pool.id())));
    workers
}

fn all_peers(peers: Vec<PeerId>) -> (reference: Reference)
    ensures
        reference@ == to_peers(peers@, SelectionStrategy::All),
{
    Reference::Peers { peers, strategy: SelectionStrategy::All, resource: None }
}

/// Handle one report of the action protocol and decide on the next step.
pub fn schedule<T: RuntimeStatistic>(
    shared: &Memberships,
    measurements: &mut Measurements<T>,
    worker_pool: &PoolStatisticsHandle<T>,
    parameter_pool: &PoolHandle,
    round_state: &mut RoundState,
    start: Instant,
    clock: Clock,
    request: (PeerId, ActionRequest),
) -> (decision: Decision)
    requires
        old(measurements).wf(),
        worker_pool.table_id() < old(measurements)@.len(),
        old(round_state).wf(),
        clock.in_range(),
    ensures
        final(measurements).wf(),
        final(measurements)@ == old(measurements)@.update(
            worker_pool.table_id() as int,
            measured(
                request.0,
                request.1.status,
                peers_of(shared.of(parameter_pool.id())),
                old(measurements)@[worker_pool.table_id() as int],
                shared.of(worker_pool.id()),
                millis_since(start, clock.instant),
            ),
        ),
        final(round_state).wf(),
        final(round_state)@ == noted(
            request.0,
            request.1.status,
            old(round_state)@,
            clock.instant,
        ),
        decision.report == carried_metrics(request.0, request.1.status),
        decision.advance == ends_round(
            request.0,
            request.1.status,
            peers_of(shared.of(parameter_pool.id())),
        ),
        decision.response.job_id == request.1.job_id,
        decision.response.next@ == answer(
            request.0,
            request.1.status,
            peers_of(shared.of(parameter_pool.id())),
            peers_of(shared.of(worker_pool.id())),
            old(round_state)@,
            clock,
        ),
{
    let (peer_id, ActionRequest { job_id, status }) = request;
    let now = clock.now;
    assert(measurements@ =~= measurements@.update(
        worker_pool.table_id() as int,
        measurements@[worker_pool.table_id() as int],
    ));
    let servers: Vec<PeerId> = parameter_pool.members().peers(shared);
    let primary_ps = first_of(&servers);
    let is_primary = match primary_ps {
        Some(first) => first == peer_id,
        None => false,
    };
    let mut report: Option<(PeerId, Metrics)> = None;
    let mut advance: bool = false;
    let next = match status {
        ExecutorStatus::Train(train) => ExecutorAction::Train(
            match train {
                TrainStatus::Idle => TrainAction::ExecuteBatch,
                TrainStatus::BatchCompleted { .. } => {
                    let elapsed: u128 = clock.instant.duration_since(start).as_millis();
                    let since_start: u64 = (elapsed % 0x1_0000_0000_0000_0000u128) as u64;
                    worker_pool.update(measurements, &peer_id, since_start);
                    match primary_ps {
                        None => TrainAction::Idle { timeout: now.after_millis(1_000) },
                        Some(first) => {
                            // A single server is selected, so that no update is sent twice.
                            let mut peers: Vec<PeerId> = Vec::new();
                            peers.push(first);
                            TrainAction::SendUpdate {
                                target: Reference::Peers {
                                    peers,
                                    strategy: SelectionStrategy::One,
                                    resource: None,
                                },
                                timeout: now.after_millis(30_000),
                            }
                        },
                    }
                },
                TrainStatus::SentUpdate => {
                    round_state.record(peer_id, clock.instant);
                    let _ = worker_pool.statistics(shared, measurements);
                    if servers.len() == 0 {
                        TrainAction::Idle { timeout: now.after_millis(1_000) }
                    } else {
                        TrainAction::ApplyUpdate {
                            source: all_peers(servers),
                            timeout: now.after_millis(30_000),
                        }
                    }
                },
                TrainStatus::AppliedUpdate { round, metrics } => {
                    report = Some((peer_id, Metrics { round, metrics }));
                    TrainAction::ExecuteBatch
                },
                TrainStatus::Error(TrainError::Connection { .. }) => TrainAction::Idle {
                    timeout: now.after_millis(1_000),
                },
                TrainStatus::Error(TrainError::Other { .. }) => TrainAction::Terminate,
                TrainStatus::Terminated => TrainAction::Terminate,
            },
        ),
        ExecutorStatus::Aggregate(aggregate) => ExecutorAction::Aggregate(
            match aggregate {
                AggregateStatus::Idle => {
                    // Only the primary is allowed to aggregate.
                    if !is_primary {
                        AggregateAction::Idle { timeout: now.after_millis(5_000) }
                    } else {
                        let workers = current_workers(shared, measurements, worker_pool);
                        if workers.len() == 0 {
                            AggregateAction::Idle { timeout: now.after_millis(1_000) }
                        } else if round_state.ready(&workers, clock.instant) {
                            AggregateAction::AggregateUpdates { source: all_peers(workers) }
                        } else {
                            AggregateAction::Idle { timeout: now.after_millis(500) }
                        }
                    }
                },
                AggregateStatus::AggregatedUpdates { .. } => {
                    // Only the primary is allowed to proceed to broadcast.
                    if !is_primary {
                        AggregateAction::Idle { timeout: now.after_millis(5_000) }
                    } else {
                        let workers = current_workers(shared, measurements, worker_pool);
                        if workers.len() == 0 {
                            AggregateAction::Idle { timeout: now.after_millis(1_000) }
                        } else {
                            AggregateAction::BroadcastUpdate { target: all_peers(workers) }
                        }
                    }
                },
                AggregateStatus::BroadcastedUpdate { metrics } => {
                    if let Some(metrics) = metrics {
                        report = Some((peer_id, Metrics { round: 0, metrics }));
                    }
                    advance = is_primary;
                    AggregateAction::Idle { timeout: now.after_millis(1_000) }
                },
                AggregateStatus::Error(AggregateError::Connection { .. }) => AggregateAction::Idle {
                    timeout: now.after_millis(1_000),
                },
                AggregateStatus::Error(AggregateError::Other { .. }) => AggregateAction::Terminate,
                AggregateStatus::Terminated => AggregateAction::Terminate,
            },
        ),
    };
    Decision { report, response: ActionResponse { job_id, next }, advance }
}

/// Completes a decision. `sent` says whether the report, if there is any, could be handed on:
/// a report that could not ends in an error, and the round goes on.
pub fn conclude(round_state: &mut RoundState, decision: Decision, sent: bool) -> (response: Result<
    ActionResponse,
    BatchSchedulerError,
>)
    requires
        old(round_state).wf(),
    ensures
        final(round_state).wf(),
        decision.delivered(sent) ==> {
            &&& response == Ok::<ActionResponse, BatchSchedulerError>(decision.response)
            &&& final(round_state)@ == decision.round_after(old(round_state)@)
        },
        !decision.delivered(sent) ==> {
            &&& response == Err::<ActionResponse, BatchSchedulerError>(
                BatchSchedulerError::SendMetricsError,
            )
            &&& final(round_state)@ == old(round_state)@
        },
{
    if decision.report.is_some() && !sent {
        return Err(BatchSchedulerError::SendMetricsError);
    }
    if decision.advance {
        round_state.advance();
    }
    Ok(decision.response)
}

impl Decision {
    /// Whether there was nothing to hand on, or it was handed on.
    pub open spec fn delivered(self, sent: bool) -> bool {
        self.report is None || sent
    }

    /// The round once the decision was carried out.
    pub open spec fn round_after(self, round: RoundView) -> RoundView {
        if self.advance {
            round.next()
        } else {
            round
        }
    }
}

/// Schedules the batches of one job.
#[derive(Debug)]
pub struct BatchScheduler {
    id: Uuid,
    start: Instant,
    round_state: RoundState,
}

impl BatchScheduler {
    /// The job whose executors are answered.
    pub closed spec fn job(self) -> Uuid {
        self.id
    }

    /// When the scheduler started.
    pub closed spec fn started(self) -> Instant {
        self.start
    }

    /// The state of the round.
    pub closed spec fn round(self) -> RoundView {
        self.round_state@
    }

    pub closed spec fn wf(self) -> bool {
        self.round_state.wf()
    }

    pub fn new(id: Uuid, min_quorum: usize, grace: Duration, start: Instant) -> (scheduler:
        BatchScheduler)
        ensures
            scheduler.wf(),
            scheduler.job() == id,
            scheduler.started() == start,
            scheduler.round() == RoundView::initial(min_quorum as nat, grace),
    {
        BatchScheduler { id, start, round_state: RoundState::new(min_quorum, grace) }
    }

    /// Whether the request is about the scheduler's job.
    pub fn accepts(&self, request: &ActionRequest) -> (accepted: bool)
        ensures
            accepted == (request.job_id == self.job()),
    {
        request.job_id == self.id
    }

    /// Handles one request and decides on the next step.
    pub fn decide<T: RuntimeStatistic>(
        &mut self,
        shared: &Memberships,
        measurements: &mut Measurements<T>,
        worker_pool: &PoolStatisticsHandle<T>,
        parameter_pool: &PoolHandle,
        clock: Clock,
        request: (PeerId, ActionRequest),
    ) -> (decision: Decision)
        requires
            old(self).wf(),
            old(measurements).wf(),
        worker_pool.table_id() < old(measurements)@.len(),
            clock.in_range(),
        ensures
            final(self).wf(),
            final(self).job() == old(self).job(),
            final(self).started() == old(self).started(),
            final(self).round() == noted(
                request.0,
                request.1.status,
                old(self).round(),
                clock.instant,
            ),
            final(measurements).wf(),
            final(measurements)@ == old(measurements)@.update(
                worker_pool.table_id() as int,
                measured(
                    request.0,
                    request.1.status,
                    peers_of(shared.of(parameter_pool.id())),
                    old(measurements)@[worker_pool.table_id() as int],
                    shared.of(worker_pool.id()),
                    millis_since(old(self).started(), clock.instant),
                ),
            ),
            decision.report == carried_metrics(request.0, request.1.status),
            decision.advance == ends_round(
            request.0,
            request.1.status,
            peers_of(shared.of(parameter_pool.id())),
        ),
            decision.response.job_id == request.1.job_id,
            decision.response.next@ == answer(
                request.0,
                request.1.status,
                peers_of(shared.of(parameter_pool.id())),
                peers_of(shared.of(worker_pool.id())),
                old(self).round(),
                clock,
            ),
    {
        schedule(
            shared,
            measurements,
            worker_pool,
            parameter_pool,
            &mut self.round_state,
            self.start,
            clock,
            request,
        )
    }

    /// Completes a decision and gives the answer: whoever is in error is terminated.
    pub fn respond(&mut self, decision: Decision, sent: bool) -> (response: ActionResponse)
        requires
            old(self).wf(),
        ensures
            final(self).wf(),
            final(self).job() == old(self).job(),
            final(self).started() == old(self).started(),
            decision.delivered(sent) ==> {
                &&& response == decision.response
                &&& final(self).round() == decision.round_after(old(self).round())
            },
            !decision.delivered(sent) ==> {
                &&& response.job_id == old(self).job()
                &&& response.next@ == ActionView::Train(TrainActionView::Terminate)
                &&& final(self).round() == old(self).round()
            },
    {
        match conclude(&mut self.round_state, decision, sent) {
            Ok(response) => response,
            Err(_) => ActionResponse {
                job_id: self.id,
                next: ExecutorAction::Train(TrainAction::Terminate),
            },
        }
    }
}

/// Whether the action lets a parameter server work on updates.
pub open spec fn aggregates(action: ActionView) -> bool {
    ||| action matches ActionView::Aggregate(AggregateActionView::AggregateUpdates(_))
    ||| action matches ActionView::Aggregate(AggregateActionView::BroadcastUpdate(_))
}

/// Only the primary parameter server is told to aggregate or to broadcast, so no two servers ever
/// are.
pub proof fn law_one_server_aggregates(
    first: PeerId,
    second: PeerId,
    status: ExecutorStatus,
    other: ExecutorStatus,
    servers: Seq<PeerId>,
    workers: Seq<PeerId>,
    round: RoundView,
    later: RoundView,
    clock: Clock,
    tock: Clock,
)
    ensures
        aggregates(answer(first, status, servers, workers, round, clock)) ==> primary(servers)
            == Some(first),
        aggregates(answer(first, status, servers, workers, round, clock)) && aggregates(
            answer(second, other, servers, workers, later, tock),
        ) ==> first == second,
{
}

/// Workers send their update to the primary parameter server and to no other.
pub proof fn law_updates_go_to_the_primary(
    status: TrainStatus,
    servers: Seq<PeerId>,
    now: SystemTime,
)
    ensures
        train_answer(status, servers, now) matches TrainActionView::SendUpdate(target, _) ==> {
            &&& primary(servers) matches Some(server)
            &&& target == to_peers(seq![server], SelectionStrategy::One)
        },
{
}

/// A training worker is told what a training worker can do, a parameter server what a parameter
/// server can do.
pub proof fn law_answers_fit_the_executor(
    peer: PeerId,
    status: ExecutorStatus,
    servers: Seq<PeerId>,
    workers: Seq<PeerId>,
    round: RoundView,
    clock: Clock,
)
    ensures
        (status is Train) <==> (answer(peer, status, servers, workers, round, clock) is Train),
{
}

/// Without a parameter server no update is sent, applied, aggregated or broadcast.
pub proof fn law_nothing_moves_without_a_server(
    peer: PeerId,
    status: ExecutorStatus,
    workers: Seq<PeerId>,
    round: RoundView,
    clock: Clock,
)
    ensures
        match answer(peer, status, Seq::empty(), workers, round, clock) {
            ActionView::Train(action) => {
                ||| action is ExecuteBatch
                ||| action is Idle
                ||| action is Terminate
            },
            ActionView::Aggregate(action) => action is Idle || action is Terminate,
        },
{
}

/// A worker that reports its update again changes nothing.
pub proof fn law_reporting_twice_counts_once(
    round: RoundView,
    peer: PeerId,
    first: Instant,
    second: Instant,
)
    ensures
        round.with_update(peer, first).with_update(peer, second) == round.with_update(peer, first),
{
    assert(round.sent.insert(peer).insert(peer) =~= round.sent.insert(peer));
}

/// Once a round is ready to be aggregated, neither time nor further updates undo it.
pub proof fn law_readiness_lasts(
    round: RoundView,
    workers: Seq<PeerId>,
    at: Instant,
    peer: PeerId,
    reported: Instant,
    later: Instant,
)
    requires
        round.sent.finite(),
        round.ready(workers, at),
        at.nanos <= later.nanos,
    ensures
        round.ready(workers, later),
        round.with_update(peer, reported).ready(workers, later),
{
    assert(round.sent.insert(peer).len() >= round.sent.len());
}

/// A new round is not ready as long as there are workers and none of them has sent an update.
pub proof fn law_new_round_waits(round: RoundView, workers: Seq<PeerId>, at: Instant)
    requires
        workers.len() > 0,
    ensures
        !round.next().ready(workers, at),
        round.next().round >= round.round,
        round.next().min_quorum == round.min_quorum,
        round.next().grace == round.grace,
{
    assert(!round.next().sent.contains(workers[0]));
}

/// The round after `reports` were answered one by one, all metrics handed on.
pub open spec fn round_after(
    reports: Seq<(PeerId, ExecutorStatus, Instant)>,
    servers: Seq<PeerId>,
    round: RoundView,
) -> RoundView
    decreases reports.len(),
{
    if reports.len() == 0 {
        round
    } else {
        let (peer, status, at) = reports.last();
        let before = noted(peer, status, round_after(reports.drop_last(), servers, round), at);
        if ends_round(peer, status, servers) {
            before.next()
        } else {
            before
        }
    }
}

/// Whether `peer` is among those that reported to have sent an update.
pub open spec fn reported_sent(
    reports: Seq<(PeerId, ExecutorStatus, Instant)>,
    peer: PeerId,
) -> bool {
    exists|i: int|
        0 <= i < reports.len() && (#[trigger] reports[i]).0 == peer && reports[i].1
            == ExecutorStatus::Train(TrainStatus::SentUpdate)
}

/// As long as the primary has not broadcast, the workers whose update counts are exactly those
/// that reported it since the round began; the round number stays.
pub proof fn law_round_counts_reported_updates(
    reports: Seq<(PeerId, ExecutorStatus, Instant)>,
    servers: Seq<PeerId>,
    round: RoundView,
    peer: PeerId,
)
    requires
        round.sent == Set::<PeerId>::empty(),
        forall|i: int|
            0 <= i < reports.len() ==> !ends_round(
                (#[trigger] reports[i]).0,
                reports[i].1,
                servers,
            ),
    ensures
        round_after(reports, servers, round).sent.finite(),
        round_after(reports, servers, round).sent.contains(peer) <==> reported_sent(reports, peer),
        round_after(reports, servers, round).round == round.round,
        round_after(reports, servers, round).min_quorum == round.min_quorum,
        round_after(reports, servers, round).grace == round.grace,
    decreases reports.len(),
{
    if reports.len() > 0 {
        let before = reports.drop_last();
        assert forall|i: int| 0 <= i < before.len() implies !ends_round(
            (#[trigger] before[i]).0,
            before[i].1,
            servers,
        ) by {
            assert(before[i] == reports[i]);
        }
        law_round_counts_reported_updates(before, servers, round, peer);
        let last = reports.last();
        assert(reports[reports.len() - 1] == last);
        assert(!ends_round(last.0, last.1, servers));
        assert(reported_sent(reports, peer) <==> reported_sent(before, peer) || (last.0 == peer
            && last.1 == ExecutorStatus::Train(TrainStatus::SentUpdate))) by {
            if reported_sent(before, peer) {
                let i = choose|i: int|
                    0 <= i < before.len() && (#[trigger] before[i]).0 == peer && before[i].1
                        == ExecutorStatus::Train(TrainStatus::SentUpdate);
                assert(reports[i] == before[i]);
            }
            if reported_sent(reports, peer) {
                let i = choose|i: int|
                    0 <= i < reports.len() && (#[trigger] reports[i]).0 == peer && reports[i].1
                        == ExecutorStatus::Train(TrainStatus::SentUpdate);
                if i < before.len() {
                    assert(before[i] == reports[i]);
                }
            }
        }
    }
}

/// Once every worker has reported its update in a round, the primary that asks is told to
/// aggregate the updates of all of them, whatever the quorum and the grace period are.
pub proof fn law_all_reports_trigger_aggregation(
    reports: Seq<(PeerId, ExecutorStatus, Instant)>,
    servers: Seq<PeerId>,
    workers: Seq<PeerId>,
    round: RoundView,
    clock: Clock,
)
    requires
        servers.len() > 0,
        workers.len() > 0,
        round.sent == Set::<PeerId>::empty(),
        forall|i: int|
            0 <= i < reports.len() ==> !ends_round(
                (#[trigger] reports[i]).0,
                reports[i].1,
                servers,
            ),
        forall|i: int| 0 <= i < workers.len() ==> reported_sent(reports, #[trigger] workers[i]),
    ensures
        answer(
            servers[0],
            ExecutorStatus::Aggregate(AggregateStatus::Idle),
            servers,
            workers,
            round_after(reports, servers, round),
            clock,
        ) == ActionView::Aggregate(
            AggregateActionView::AggregateUpdates(to_peers(workers, SelectionStrategy::All)),
        ),
{
    let reached = round_after(reports, servers, round);
    assert forall|i: int| 0 <= i < workers.len() implies reached.sent.contains(
        #[trigger] workers[i],
    ) by {
        law_round_counts_reported_updates(reports, servers, round, workers[i]);
    }
}

/// The primary parameter server stays the primary until it exits itself, whoever joins or exits
/// meanwhile.
pub proof fn law_primary_is_stable(
    servers: Seq<WorkerDescriptor>,
    joined: Seq<WorkerDescriptor>,
    exited: PeerId,
)
    requires
        servers.len() > 0,
    ensures
        primary(peers_of(servers + joined)) == primary(peers_of(servers)),
        primary(peers_of(servers)) != Some(exited) ==> primary(peers_of(without(servers, exited)))
            == primary(peers_of(servers)),
{
    law_oldest_stays_first(servers, joined, exited);
}

/// With a parameter server at hand, a worker that does what it is told trains, sends its update,
/// applies the result and trains again.
pub proof fn law_workers_go_round(
    servers: Seq<PeerId>,
    now: SystemTime,
    batch_size: u32,
    applied: TrainStatus,
)
    requires
        servers.len() > 0,
        applied is AppliedUpdate,
    ensures
        train_answer(TrainStatus::Idle, servers, now) is ExecuteBatch,
        train_answer(TrainStatus::BatchCompleted { batch_size }, servers, now) is SendUpdate,
        train_answer(TrainStatus::SentUpdate, servers, now) is ApplyUpdate,
        train_answer(applied, servers, now) is ExecuteBatch,
{
}

/// Whether `next` is how the executor `peer` is answered while `servers` and `workers` are the
/// members of the two pools.
pub open spec fn is_answer(
    next: ExecutorAction,
    peer: PeerId,
    status: ExecutorStatus,
    servers: Seq<WorkerDescriptor>,
    workers: Seq<WorkerDescriptor>,
    round: RoundView,
    clock: Clock,
) -> bool {
    next@ == answer(peer, status, peers_of(servers), peers_of(workers), round, clock)
}

/// Whether a reference names all of `members`, in their order, and nobody else.
pub open spec fn names_all(reference: Reference, members: Seq<WorkerDescriptor>) -> bool {
    &&& reference matches Reference::Peers { peers, strategy, resource }
    &&& strategy == SelectionStrategy::All
    &&& resource is None
    &&& peers@.len() == members.len()
    &&& forall|i: int| 0 <= i < members.len() ==> #[trigger] peers@[i] == members[i].peer_id
}

/// A worker that has sent its update is told to apply one whenever there is a parameter server,
/// and nobody else is. The update may come from any of the servers that are members now, so the
/// one that aggregates, the oldest, is always among them. The worker waits for thirty seconds.
pub proof fn law_updates_come_from_every_server(
    next: ExecutorAction,
    peer: PeerId,
    status: ExecutorStatus,
    servers: Seq<WorkerDescriptor>,
    workers: Seq<WorkerDescriptor>,
    round: RoundView,
    clock: Clock,
)
    requires
        is_answer(next, peer, status, servers, workers, round, clock),
        clock.in_range(),
    ensures
        next matches ExecutorAction::Train(TrainAction::ApplyUpdate { .. }) <==> status
            == ExecutorStatus::Train(TrainStatus::SentUpdate) && servers.len() > 0,
        next matches ExecutorAction::Train(TrainAction::ApplyUpdate { source, timeout }) ==> {
            &&& names_all(source, servers)
            &&& source->peers@[0] == servers[0].peer_id
            &&& timeout.nanos == clock.now.nanos + 30_000_000_000
        },
{
}

/// A worker that has completed a batch is told to send its update whenever there is a parameter
/// server, and nobody else is. The update goes to the oldest server and to no other, within
/// thirty seconds.
pub proof fn law_updates_go_to_the_oldest_server(
    next: ExecutorAction,
    peer: PeerId,
    status: ExecutorStatus,
    servers: Seq<WorkerDescriptor>,
    workers: Seq<WorkerDescriptor>,
    round: RoundView,
    clock: Clock,
)
    requires
        is_answer(next, peer, status, servers, workers, round, clock),
        clock.in_range(),
    ensures
        next matches ExecutorAction::Train(TrainAction::SendUpdate { .. }) <==> (status
            matches ExecutorStatus::Train(TrainStatus::BatchCompleted { .. })) && servers.len() > 0,
        next matches ExecutorAction::Train(TrainAction::SendUpdate { target, timeout }) ==> {
            &&& target matches Reference::Peers { peers, strategy, resource }
            &&& peers@.len() == 1
            &&& peers@[0] == servers[0].peer_id
            &&& strategy == SelectionStrategy::One
            &&& resource is None
            &&& timeout.nanos == clock.now.nanos + 30_000_000_000
        },
{
}

/// Whether the updates of a round suffice, `sent` being the peers that have sent theirs and
/// `first` when the first of them did: every worker has, or as many as the quorum asks for, or as
/// there are workers, and the grace period since the first is over.
pub open spec fn suffices(
    sent: Set<PeerId>,
    first: Option<Instant>,
    workers: Seq<WorkerDescriptor>,
    min_quorum: nat,
    grace: Duration,
    at: Instant,
) -> bool {
    ||| forall|i: int| 0 <= i < workers.len() ==> sent.contains((#[trigger] workers[i]).peer_id)
    ||| {
        &&& sent.len() >= min_quorum || sent.len() >= workers.len()
        &&& first matches Some(first) && (grace.nanos == 0 || first.nanos + grace.nanos
            <= at.nanos)
    }
}

/// The oldest parameter server alone is told to aggregate and to broadcast: to aggregate, when it
/// is idle and the updates of the round suffice; to broadcast, when it has aggregated. Both is
/// for all workers that are members now, and for none where there is no worker.
pub proof fn law_the_oldest_server_serves_every_worker(
    next: ExecutorAction,
    peer: PeerId,
    status: ExecutorStatus,
    servers: Seq<WorkerDescriptor>,
    workers: Seq<WorkerDescriptor>,
    round: RoundView,
    clock: Clock,
)
    requires
        is_answer(next, peer, status, servers, workers, round, clock),
    ensures
        next matches ExecutorAction::Aggregate(AggregateAction::AggregateUpdates { .. }) <==> {
            &&& status == ExecutorStatus::Aggregate(AggregateStatus::Idle)
            &&& servers.len() > 0 && servers[0].peer_id == peer
            &&& workers.len() > 0
            &&& suffices(
                round.sent,
                round.first_update_at,
                workers,
                round.min_quorum,
                round.grace,
                clock.instant,
            )
        },
        next matches ExecutorAction::Aggregate(AggregateAction::AggregateUpdates { source })
            ==> names_all(source, workers),
        next matches ExecutorAction::Aggregate(AggregateAction::BroadcastUpdate { .. }) <==> {
            &&& status matches ExecutorStatus::Aggregate(AggregateStatus::AggregatedUpdates { .. })
            &&& servers.len() > 0 && servers[0].peer_id == peer
            &&& workers.len() > 0
        },
        next matches ExecutorAction::Aggregate(AggregateAction::BroadcastUpdate { target })
            ==> names_all(target, workers),
{
    let peers = peers_of(workers);
    assert(peers.len() == workers.len());
    assert(round.all_sent(peers) <==> forall|i: int|
        0 <= i < workers.len() ==> round.sent.contains((#[trigger] workers[i]).peer_id)) by {
        if round.all_sent(peers) {
            assert forall|i: int| 0 <= i < workers.len() implies round.sent.contains(
                (#[trigger] workers[i]).peer_id,
            ) by {
                assert(round.sent.contains(peers[i]));
            }
        }
    }
}

/// A worker trains when it is idle and when it has applied an update, whatever else is the case.
/// Executors end when they report that they are terminated or that they failed, unless only their
/// connection failed; nobody else is told to end.
pub proof fn law_who_trains_and_who_ends(
    next: ExecutorAction,
    peer: PeerId,
    status: ExecutorStatus,
    servers: Seq<WorkerDescriptor>,
    workers: Seq<WorkerDescriptor>,
    round: RoundView,
    clock: Clock,
)
    requires
        is_answer(next, peer, status, servers, workers, round, clock),
    ensures
        next == ExecutorAction::Train(TrainAction::ExecuteBatch) <==> {
            ||| status == ExecutorStatus::Train(TrainStatus::Idle)
            ||| status matches ExecutorStatus::Train(TrainStatus::AppliedUpdate { .. })
        },
        next == ExecutorAction::Train(TrainAction::Terminate) <==> {
            ||| status == ExecutorStatus::Train(TrainStatus::Terminated)
            ||| status matches ExecutorStatus::Train(
                TrainStatus::Error(TrainError::Other { .. }),
            )
        },
        next == ExecutorAction::Aggregate(AggregateAction::Terminate) <==> {
            ||| status == ExecutorStatus::Aggregate(AggregateStatus::Terminated)
            ||| status matches ExecutorStatus::Aggregate(
                AggregateStatus::Error(AggregateError::Other { .. }),
            )
        },
{
}

/// Whoever is told to wait comes back: a worker after a second; a parameter server that is not
/// the oldest after five seconds where it would have aggregated or broadcast, the oldest after
/// half a second where updates are missing, and else after a second.
pub proof fn law_waiting_ends(
    next: ExecutorAction,
    peer: PeerId,
    status: ExecutorStatus,
    servers: Seq<WorkerDescriptor>,
    workers: Seq<WorkerDescriptor>,
    round: RoundView,
    clock: Clock,
)
    requires
        is_answer(next, peer, status, servers, workers, round, clock),
        clock.in_range(),
    ensures
        next matches ExecutorAction::Train(TrainAction::Idle { timeout }) ==> timeout.nanos
            == clock.now.nanos + 1_000_000_000,
        next matches ExecutorAction::Aggregate(AggregateAction::Idle { timeout }) ==> timeout.nanos
            - clock.now.nanos == {
            let works = status == ExecutorStatus::Aggregate(AggregateStatus::Idle) || (status
                matches ExecutorStatus::Aggregate(AggregateStatus::AggregatedUpdates { .. }));
            if works && !(servers.len() > 0 && servers[0].peer_id == peer) {
                5_000_000_000int
            } else if works && workers.len() > 0 {
                500_000_000
            } else {
                1_000_000_000
            }
        },
{
}

/// A worker that reports to have sent its update counts from then on, and the first of a round
/// starts the grace period. No other report changes the round, and no worker that counts is lost.
pub proof fn law_sent_updates_count(
    peer: PeerId,
    status: ExecutorStatus,
    round: RoundView,
    at: Instant,
    other: PeerId,
)
    ensures
        ({
            let after = noted(peer, status, round, at);
            let sends = status == ExecutorStatus::Train(TrainStatus::SentUpdate);
            &&& after.sent.contains(other) <==> round.sent.contains(other) || (sends && other
                == peer)
            &&& after.first_update_at == (if sends && round.first_update_at is None {
                Some(at)
            } else {
                round.first_update_at
            })
            &&& after.min_quorum == round.min_quorum
            &&& after.grace == round.grace
            &&& after.round == round.round
        }),
{
}

/// The grace period of a round starts with the first report of an update in it, and with no
/// other, as long as the round has not ended.
pub proof fn law_first_update_starts_the_grace(
    reports: Seq<(PeerId, ExecutorStatus, Instant)>,
    servers: Seq<PeerId>,
    round: RoundView,
    first: int,
)
    requires
        round.first_update_at is None,
        forall|i: int|
            0 <= i < reports.len() ==> !ends_round(
                (#[trigger] reports[i]).0,
                reports[i].1,
                servers,
            ),
        0 <= first <= reports.len(),
        forall|i: int|
            0 <= i < first ==> (#[trigger] reports[i]).1 != ExecutorStatus::Train(
                TrainStatus::SentUpdate,
            ),
        first < reports.len() ==> reports[first].1 == ExecutorStatus::Train(
            TrainStatus::SentUpdate,
        ),
    ensures
        first == reports.len() ==> round_after(reports, servers, round).first_update_at is None,
        first < reports.len() ==> round_after(reports, servers, round).first_update_at == Some(
            reports[first].2,
        ),
    decreases reports.len(),
{
    if reports.len() > 0 {
        let before = reports.drop_last();
        let last = reports.len() - 1;
        assert(reports[last] == reports.last());
        assert forall|i: int| 0 <= i < before.len() implies (#[trigger] before[i]) == reports[i] by {}
        assert forall|i: int| 0 <= i < before.len() implies !ends_round(
            (#[trigger] before[i]).0,
            before[i].1,
            servers,
        ) by {
            assert(!ends_round(reports[i].0, reports[i].1, servers));
        }
        assert forall|i: int| 0 <= i < first && i < last implies (#[trigger] before[i]).1
            != ExecutorStatus::Train(TrainStatus::SentUpdate) by {
            assert(reports[i].1 != ExecutorStatus::Train(TrainStatus::SentUpdate));
        }
        law_first_update_starts_the_grace(
            before,
            servers,
            round,
            if first <= last {
                first
            } else {
                last
            },
        );
    }
}

/// Only the broadcast of the oldest parameter server ends a round.
pub proof fn law_the_oldest_server_ends_the_round(
    peer: PeerId,
    status: ExecutorStatus,
    servers: Seq<WorkerDescriptor>,
)
    ensures
        ends_round(peer, status, peers_of(servers)) <==> {
            &&& status matches ExecutorStatus::Aggregate(AggregateStatus::BroadcastedUpdate { .. })
            &&& servers.len() > 0 && servers[0].peer_id == peer
        },
{
}

/// A round starts without updates, with the number after that of the round before it, or with the
/// same where there is no number after it; the first has the number zero. The quorum and the grace
/// period stay as they were set.
pub proof fn law_rounds_are_counted(
    round: RoundView,
    min_quorum: nat,
    grace: Duration,
    peer: PeerId,
)
    ensures
        !round.next().sent.contains(peer),
        round.next().first_update_at is None,
        round.round < u32::MAX ==> round.next().round == round.round + 1,
        round.round == u32::MAX ==> round.next().round == u32::MAX,
        round.next().min_quorum == round.min_quorum,
        round.next().grace == round.grace,
        !RoundView::initial(min_quorum, grace).sent.contains(peer),
        RoundView::initial(min_quorum, grace).first_update_at is None,
        RoundView::initial(min_quorum, grace).round == 0,
        RoundView::initial(min_quorum, grace).min_quorum == min_quorum,
        RoundView::initial(min_quorum, grace).grace == grace,
{
}

/// Metrics are handed on exactly as they were reported, with the peer that reported them: those
/// of a worker with its round, those of a parameter server with round zero. No other report has
/// any.
pub proof fn law_metrics_are_handed_on(peer: PeerId, status: ExecutorStatus)
    ensures
        match carried_metrics(peer, status) {
            Some((from, handed)) => {
                &&& from == peer
                &&& {
                    ||| status == ExecutorStatus::Train(
                        TrainStatus::AppliedUpdate { round: handed.round, metrics: handed.metrics },
                    )
                    ||| status == ExecutorStatus::Aggregate(
                        AggregateStatus::BroadcastedUpdate { metrics: Some(handed.metrics) },
                    ) && handed.round == 0
                }
            },
            None => {
                &&& !(status matches ExecutorStatus::Train(TrainStatus::AppliedUpdate { .. }))
                &&& !(status matches ExecutorStatus::Aggregate(
                    AggregateStatus::BroadcastedUpdate { metrics: Some(_) },
                ))
            },
        },
{
}

/// Every completed batch of a worker is measured, and only that worker's statistic changes.
/// Statistics of workers that are no members are forgotten when a worker has sent its update or
/// when the oldest server asks whether to aggregate or to broadcast; then, and at all other
/// reports, the rest stays.
pub proof fn law_what_a_report_does_to_the_statistics<T: RuntimeStatistic>(
    peer: PeerId,
    status: ExecutorStatus,
    servers: Seq<WorkerDescriptor>,
    table: Map<PeerId, (LastUpdated, T)>,
    workers: Seq<WorkerDescriptor>,
    since_start: u64,
    other: PeerId,
)
    ensures
        ({
            let after = measured(peer, status, peers_of(servers), table, workers, since_start);
            let batch = status matches ExecutorStatus::Train(TrainStatus::BatchCompleted { .. });
            let serves = status == ExecutorStatus::Aggregate(AggregateStatus::Idle) || (status
                matches ExecutorStatus::Aggregate(AggregateStatus::AggregatedUpdates { .. }));
            let forgets = status == ExecutorStatus::Train(TrainStatus::SentUpdate) || (serves
                && servers.len() > 0 && servers[0].peer_id == peer);
            let member = exists|i: int|
                0 <= i < workers.len() && (#[trigger] workers[i]).peer_id == other;
            &&& batch ==> after.dom().contains(peer) && after[peer].0 == since_start
            &&& batch && !table.dom().contains(peer) ==> after[peer].1 == T::fresh()
            &&& batch && table.dom().contains(peer) && table[peer].0 <= since_start
                ==> after[peer].1 == table[peer].1.after((since_start - table[peer].0) as u64)
            &&& !(batch && other == peer) ==> {
                &&& after.dom().contains(other) <==> table.dom().contains(other) && (forgets
                    ==> member)
                &&& after.dom().contains(other) ==> after[other] == table[other]
            }
        }),
{
    let peers = peers_of(workers);
    if peers.contains(other) {
        let i = peers.index_of(other);
        assert(workers[i].peer_id == other);
    }
    if exists|i: int| 0 <= i < workers.len() && (#[trigger] workers[i]).peer_id == other {
        let i = choose|i: int| 0 <= i < workers.len() && (#[trigger] workers[i]).peer_id == other;
        assert(peers[i] == other);
    }
}

/// Time is measured in whole milliseconds since the start.
pub proof fn law_time_is_measured_from_the_start(start: Instant, at: Instant)
    ensures
        at.nanos <= start.nanos ==> millis_since(start, at) == 0,
        start.nanos <= at.nanos && at.nanos - start.nanos < 0x1_0000_0000_0000_0000 * 1_000_000
            ==> {
            let elapsed = millis_since(start, at) as int * 1_000_000;
            start.nanos + elapsed <= at.nanos < start.nanos + elapsed + 1_000_000
        },
{
}

/// A report whose metrics could not be handed on ends in an error and leaves the round as it was;
/// else the answer is the one that was decided on, and the round moves on exactly where that was
/// decided.
pub proof fn law_decisions_are_carried_out(decision: Decision, sent: bool, round: RoundView)
    ensures
        decision.delivered(sent) <==> !(decision.report is Some && !sent),
        !decision.advance ==> decision.round_after(round) == round,
        decision.advance ==> {
            &&& decision.round_after(round).sent == Set::<PeerId>::empty()
            &&& decision.round_after(round).first_update_at is None
            &&& decision.round_after(round).round == (if round.round < u32::MAX {
                round.round + 1
            } else {
                u32::MAX as int
            })
        },
{
}

/// Whoever reports is answered about the job of the report, from the members that both pools have
/// at that time. A worker that has sent its update is told to apply one from all parameter servers
/// of the pool, and is counted; a worker that has completed a batch is told to send its update to
/// the oldest of them.
pub proof fn law_reports_are_answered<T: RuntimeStatistic>(
    shared: &Memberships,
    measurements: &mut Measurements<T>,
    worker_pool: &PoolStatisticsHandle<T>,
    parameter_pool: &PoolHandle,
    round_state: &mut RoundState,
    start: Instant,
    clock: Clock,
    peer: PeerId,
    request: ActionRequest,
    decision: Decision,
)
    requires
        clock.in_range(),
        call_ensures(
            schedule::<T>,
            (
                shared,
                measurements,
                worker_pool,
                parameter_pool,
                round_state,
                start,
                clock,
                (peer, request),
            ),
            decision,
        ),
    ensures
        decision.response.job_id == request.job_id,
        is_answer(
            decision.response.next,
            peer,
            request.status,
            shared.of(parameter_pool.id()),
            shared.of(worker_pool.id()),
            old(round_state)@,
            clock,
        ),
        decision.report == carried_metrics(peer, request.status),
        decision.advance == ends_round(
            peer,
            request.status,
            peers_of(shared.of(parameter_pool.id())),
        ),
        final(round_state)@ == noted(peer, request.status, old(round_state)@, clock.instant),
        final(measurements)@ == old(measurements)@.update(
            worker_pool.table_id() as int,
            measured(
                peer,
                request.status,
                peers_of(shared.of(parameter_pool.id())),
                old(measurements)@[worker_pool.table_id() as int],
                shared.of(worker_pool.id()),
                millis_since(start, clock.instant),
            ),
        ),
        request.status == ExecutorStatus::Train(TrainStatus::SentUpdate) ==> {
            &&& final(round_state)@.sent.contains(peer)
            &&& shared.of(parameter_pool.id()).len() > 0 ==> (
            decision.response.next matches ExecutorAction::Train(
                TrainAction::ApplyUpdate { source, timeout: _ },
            ) && names_all(source, shared.of(parameter_pool.id())))
        },
        (request.status matches ExecutorStatus::Train(TrainStatus::BatchCompleted { .. }))
            && shared.of(parameter_pool.id()).len() > 0 ==> (
        decision.response.next matches ExecutorAction::Train(
            TrainAction::SendUpdate { target: Reference::Peers { peers, .. }, timeout: _ },
        ) && peers@ == seq![shared.of(parameter_pool.id())[0].peer_id]),
        old(round_state)@.sent.contains(peer) ==> final(round_state)@.sent.contains(peer),
{
    law_updates_come_from_every_server(
        decision.response.next,
        peer,
        request.status,
        shared.of(parameter_pool.id()),
        shared.of(worker_pool.id()),
        old(round_state)@,
        clock,
    );
}

/// A scheduler decides as for its own round and since its own start, and stays the scheduler of its
/// job.
pub proof fn law_schedulers_decide_by_their_round<T: RuntimeStatistic>(
    scheduler: &mut BatchScheduler,
    shared: &Memberships,
    measurements: &mut Measurements<T>,
    worker_pool: &PoolStatisticsHandle<T>,
    parameter_pool: &PoolHandle,
    clock: Clock,
    peer: PeerId,
    request: ActionRequest,
    decision: Decision,
)
    requires
        call_ensures(
            BatchScheduler::decide::<T>,
            (
                scheduler,
                shared,
                measurements,
                worker_pool,
                parameter_pool,
                clock,
                (peer, request),
            ),
            decision,
        ),
    ensures
        final(scheduler).job() == old(scheduler).job(),
        final(scheduler).started() == old(scheduler).started(),
        final(scheduler).round() == noted(
            peer,
            request.status,
            old(scheduler).round(),
            clock.instant,
        ),
        decision.response.job_id == request.job_id,
        is_answer(
            decision.response.next,
            peer,
            request.status,
            shared.of(parameter_pool.id()),
            shared.of(worker_pool.id()),
            old(scheduler).round(),
            clock,
        ),
        decision.report == carried_metrics(peer, request.status),
        decision.advance == ends_round(
            peer,
            request.status,
            peers_of(shared.of(parameter_pool.id())),
        ),
        final(measurements)@ == old(measurements)@.update(
            worker_pool.table_id() as int,
            measured(
                peer,
                request.status,
                peers_of(shared.of(parameter_pool.id())),
                old(measurements)@[worker_pool.table_id() as int],
                shared.of(worker_pool.id()),
                millis_since(old(scheduler).started(), clock.instant),
            ),
        ),
{
}

/// A scheduler answers what it decided, and goes to the next round exactly where it decided so,
/// unless there were metrics that could not be handed on: then the executor is told to terminate,
/// and the round stays.
pub proof fn law_schedulers_answer_what_they_decided(
    round_state: &mut RoundState,
    scheduler: &mut BatchScheduler,
    decision: Decision,
    sent: bool,
    concluded: Result<ActionResponse, BatchSchedulerError>,
    response: ActionResponse,
    peer: PeerId,
)
    requires
        call_ensures(conclude, (round_state, decision, sent), concluded),
        call_ensures(BatchScheduler::respond, (scheduler, decision, sent), response),
    ensures
        ({
            let lost = decision.report is Some && !sent;
            &&& lost ==> {
                &&& concluded matches Err(BatchSchedulerError::SendMetricsError)
                &&& final(round_state)@ == old(round_state)@
                &&& response.job_id == old(scheduler).job()
                &&& response.next == ExecutorAction::Train(TrainAction::Terminate)
                &&& final(scheduler).round() == old(scheduler).round()
            }
            &&& !lost ==> concluded == Ok::<ActionResponse, BatchSchedulerError>(
                decision.response,
            ) && response == decision.response
            &&& !lost && !decision.advance ==> final(round_state)@ == old(round_state)@
                && final(scheduler).round() == old(scheduler).round()
            &&& !lost && decision.advance ==> {
                &&& !final(round_state)@.sent.contains(peer)
                &&& final(round_state)@.first_update_at is None
                &&& !final(scheduler).round().sent.contains(peer)
                &&& final(scheduler).round().first_update_at is None
                &&& old(scheduler).round().round < u32::MAX ==> final(scheduler).round().round
                    == old(scheduler).round().round + 1
                &&& old(round_state)@.round < u32::MAX ==> final(round_state)@.round
                    == old(round_state)@.round + 1
                &&& final(scheduler).round().min_quorum == old(scheduler).round().min_quorum
                &&& final(scheduler).round().grace == old(scheduler).round().grace
            }
            &&& final(scheduler).job() == old(scheduler).job()
        }),
{
}

/// A scheduler starts with its first round, in which nobody has sent an update, and accepts
/// requests about its own job and no other.
pub proof fn law_schedulers_start_with_the_first_round(
    id: Uuid,
    min_quorum: usize,
    grace: Duration,
    start: Instant,
    scheduler: BatchScheduler,
    state: RoundState,
    plain: RoundState,
    number: u32,
    request: &ActionRequest,
    accepted: bool,
    peer: PeerId,
)
    requires
        call_ensures(BatchScheduler::new, (id, min_quorum, grace, start), scheduler),
        call_ensures(BatchScheduler::accepts, (&scheduler, request), accepted),
        call_ensures(RoundState::new, (min_quorum, grace), state),
        call_ensures(<RoundState as Default>::default, (), plain),
        call_ensures(RoundState::round, (&state,), number),
    ensures
        scheduler.job() == id,
        scheduler.started() == start,
        !scheduler.round().sent.contains(peer),
        scheduler.round().first_update_at is None,
        scheduler.round().round == 0,
        scheduler.round().min_quorum == min_quorum,
        scheduler.round().grace == grace,
        accepted <==> request.job_id == id,
        state@ == scheduler.round(),
        plain@.min_quorum == 0 && plain@.grace.nanos == 0 && plain@.round == 0,
        !plain@.sent.contains(peer) && plain@.first_update_at is None,
        number == 0,
{
}

/// A round is ready exactly when the updates in it suffice.
pub proof fn law_rounds_are_ready_when_updates_suffice(
    state: &RoundState,
    peers: &Vec<PeerId>,
    members: Seq<WorkerDescriptor>,
    at: Instant,
    ready: bool,
)
    requires
        call_ensures(RoundState::ready, (state, peers, at), ready),
        peers@.len() == members.len(),
        forall|i: int| 0 <= i < members.len() ==> #[trigger] peers@[i] == members[i].peer_id,
    ensures
        ready <==> suffices(
            state@.sent,
            state@.first_update_at,
            members,
            state@.min_quorum,
            state@.grace,
            at,
        ),
{
    assert(state@.all_sent(peers@) <==> forall|i: int|
        0 <= i < members.len() ==> state@.sent.contains((#[trigger] members[i]).peer_id)) by {
        if forall|i: int|
            0 <= i < members.len() ==> state@.sent.contains((#[trigger] members[i]).peer_id) {
            assert forall|i: int| 0 <= i < peers@.len() implies state@.sent.contains(
                #[trigger] peers@[i],
            ) by {
                assert(state@.sent.contains(members[i].peer_id));
            }
        }
        if state@.all_sent(peers@) {
            assert forall|i: int| 0 <= i < members.len() implies state@.sent.contains(
                (#[trigger] members[i]).peer_id,
            ) by {
                assert(state@.sent.contains(peers@[i]));
            }
        }
    }
}

/// An error during scheduling tells its reason in full.
pub proof fn law_scheduling_errors_tell_why(reason: String, text: String)
    requires
        call_ensures(
            BatchSchedulerError::to_string,
            (&BatchSchedulerError::Scheduling(reason),),
            text,
        ),
    ensures
        ({
            let head = "Error during scheduling "@;
            text@.len() == head.len() + reason@.len() && text@.take(head.len() as int) == head
                && text@.skip(head.len() as int) == reason@
        }),
{
    let head = "Error during scheduling "@;
    assert(text@.take(head.len() as int) =~= head);
    assert(text@.skip(head.len() as int) =~= reason@);
}

} // verus!
