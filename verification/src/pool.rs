//! Pool-based worker management with pull-based routing.
//!
//! The pool maintains a set of workers, automatically replacing failed ones
//! and pursuing a target size.

use vstd::prelude::*;

use crate::ids::{peer_base58, PeerId, Uuid};
use crate::messages::executor::WorkerSpec;
use crate::number::Double;
use crate::resources::Resources;
use crate::scheduler_config::PriceRange;
use crate::text::{decimal, usize_to_string};
use crate::time::{Duration, Instant};
use crate::worker::Worker;

verus! {

/// Lightweight descriptor containing worker information.
///
/// This is what consumers receive when iterating over the pool.
/// The pool maintains the worker lifecycle internally.
#[derive(Clone, Copy, Debug, PartialEq, Eq, Structural)]
pub struct WorkerDescriptor {
    pub peer_id: PeerId,
    pub resources: Resources,
}

impl WorkerDescriptor {
    /// The text that names the worker: that of its peer.
    pub fn to_string(&self) -> (text: String)
        requires
            self.peer_id.valid(),
        ensures
            text@ == peer_base58(
                self.peer_id.code,
                self.peer_id.size,
                self.peer_id.d0,
                self.peer_id.d1,
                self.peer_id.d2,
                self.peer_id.d3,
            ),
    {
        self.peer_id.to_base58()
    }
}

impl<'a> From<&'a Worker> for WorkerDescriptor {
    fn from(worker: &'a Worker) -> (descriptor: WorkerDescriptor) {
        WorkerDescriptor { peer_id: worker.peer_id(), resources: *worker.resources() }
    }
}

impl<'a> vstd::std_specs::convert::FromSpecImpl<&'a Worker> for WorkerDescriptor {
    open spec fn obeys_from_spec() -> bool {
        true
    }

    open spec fn from_spec(worker: &'a Worker) -> WorkerDescriptor {
        descriptor_of(*worker)
    }
}

/// The descriptor of a worker.
pub open spec fn descriptor_of(worker: Worker) -> WorkerDescriptor {
    WorkerDescriptor { peer_id: worker.peer(), resources: worker.offered() }
}

/// The peers of the workers, in the same order.
pub open spec fn peers_of(workers: Seq<WorkerDescriptor>) -> Seq<PeerId> {
    workers.map_values(|w: WorkerDescriptor| w.peer_id)
}

/// The workers that are not on `peer`, in the same order.
pub open spec fn without(workers: Seq<WorkerDescriptor>, peer: PeerId) -> Seq<WorkerDescriptor> {
    workers.filter(|w: WorkerDescriptor| w.peer_id != peer)
}

fn copy_of(workers: &Vec<WorkerDescriptor>) -> (copy: Vec<WorkerDescriptor>)
    ensures
        copy@ == workers@,
{
    let copy = workers.clone();
    assert(copy@ =~= workers@);
    copy
}

/// The peers of the workers, in the same order.
pub(crate) fn peers_in(workers: &Vec<WorkerDescriptor>) -> (peers: Vec<PeerId>)
    ensures
        peers@ == peers_of(workers@),
{
    let mut peers: Vec<PeerId> = Vec::new();
    for i in 0..workers.len()
        invariant
            peers@ == peers_of(workers@.take(i as int)),
    {
        assert(workers@.take(i + 1) =~= workers@.take(i as int).push(workers@[i as int]));
        peers.push(workers[i].peer_id);
        assert(peers@ =~= peers_of(workers@.take(i + 1)));
    }
    assert(workers@.take(workers@.len() as int) =~= workers@);
    peers
}

/// Shared membership state of all pools - the single source of truth.
///
/// A handle names a pool. It is asked together with this state, and tells the members that the
/// pool has at that time, whenever the handle was taken.
#[derive(Debug)]
pub struct Memberships {
    lists: Vec<Vec<WorkerDescriptor>>,
}

impl View for Memberships {
    type V = Seq<Seq<WorkerDescriptor>>;

    /// The members of each pool, oldest first.
    closed spec fn view(&self) -> Seq<Seq<WorkerDescriptor>> {
        self.lists@.map_values(|list: Vec<WorkerDescriptor>| list@)
    }
}

impl Clone for Memberships {
    fn clone(&self) -> (copy: Memberships)
        ensures
            copy@ == self@,
    {
        let mut lists: Vec<Vec<WorkerDescriptor>> = Vec::new();
        for i in 0..self.lists.len()
            invariant
                lists@.len() == i,
                forall|j: int| 0 <= j < i ==> (#[trigger] lists@[j])@ == self.lists@[j]@,
        {
            lists.push(copy_of(&self.lists[i]));
        }
        let copy = Memberships { lists };
        assert(copy@ =~= self@);
        copy
    }
}

impl Memberships {
    /// The members of the pool with the given number, oldest first.
    pub open spec fn of(self, pool: nat) -> Seq<WorkerDescriptor> {
        if pool < self@.len() {
            self@[pool as int]
        } else {
            Seq::empty()
        }
    }

    /// No pools yet.
    pub fn new() -> (memberships: Memberships)
        ensures
            memberships@ == Seq::<Seq<WorkerDescriptor>>::empty(),
    {
        let memberships = Memberships { lists: Vec::new() };
        assert(memberships@ =~= Seq::<Seq<WorkerDescriptor>>::empty());
        memberships
    }

    /// Adds a pool without members.
    fn add(&mut self) -> (pool: usize)
        ensures
            pool == old(self)@.len(),
            final(self)@ == old(self)@.push(Seq::empty()),
    {
        let pool: usize = self.lists.len();
        let list: Vec<WorkerDescriptor> = Vec::new();
        self.lists.push(list);
        assert(self@ =~= old(self)@.push(Seq::empty()));
        pool
    }

    /// A snapshot of the members of a pool.
    pub(crate) fn load(&self, pool: usize) -> (members: Vec<WorkerDescriptor>)
        ensures
            members@ == self.of(pool as nat),
    {
        if pool < self.lists.len() {
            copy_of(&self.lists[pool])
        } else {
            Vec::new()
        }
    }

    /// Replaces the members of a pool.
    fn store(&mut self, pool: usize, members: Vec<WorkerDescriptor>)
        requires
            pool < old(self)@.len(),
        ensures
            final(self)@ == old(self)@.update(pool as int, members@),
    {
        self.lists[pool] = members;
        assert(self@ =~= old(self)@.update(pool as int, members@));
    }
}

/// A cloneable handle for querying pool membership.
///
/// This allows querying current members without holding the pool itself.
#[derive(Clone, Copy, Debug, PartialEq, Eq, Structural)]
pub struct PoolMembers {
    pool: usize,
}

impl PoolMembers {
    /// The number of the pool.
    pub closed spec fn id(self) -> nat {
        self.pool as nat
    }

    /// Walks over the workers that are members now.
    pub fn iter(&self, shared: &Memberships) -> (iter: PoolMemberIter)
        ensures
            iter@ == shared.of(self.id()),
    {
        let iter = PoolMemberIter { inner: shared.load(self.pool), index: 0 };
        assert(iter@ =~= shared.of(self.id()));
        iter
    }

    /// Returns the current number of active workers.
    pub fn len(&self, shared: &Memberships) -> (len: usize)
        ensures
            len == shared.of(self.id()).len(),
    {
        if self.pool < shared.lists.len() {
            shared.lists[self.pool].len()
        } else {
            0
        }
    }

    /// Returns true if the pool has no active workers.
    pub fn is_empty(&self, shared: &Memberships) -> (empty: bool)
        ensures
            empty == (shared.of(self.id()).len() == 0),
    {
        self.len(shared) == 0
    }

    /// The members now, oldest first.
    pub fn load(&self, shared: &Memberships) -> (members: Vec<WorkerDescriptor>)
        ensures
            members@ == shared.of(self.id()),
    {
        shared.load(self.pool)
    }

    /// The peers of the members now, in the same order.
    pub fn peers(&self, shared: &Memberships) -> (peers: Vec<PeerId>)
        ensures
            peers@ == peers_of(shared.of(self.id())),
    {
        peers_in(&shared.load(self.pool))
    }
}

/// Walks over a snapshot of the members.
#[derive(Debug)]
pub struct PoolMemberIter {
    inner: Vec<WorkerDescriptor>,
    index: usize,
}

impl View for PoolMemberIter {
    type V = Seq<WorkerDescriptor>;

    /// The members that are still to come.
    closed spec fn view(&self) -> Seq<WorkerDescriptor> {
        self.inner@.skip(self.index as int)
    }
}

impl PoolMemberIter {
    #[verifier::type_invariant]
    closed spec fn in_range(self) -> bool {
        self.index <= self.inner@.len()
    }

    pub fn next(&mut self) -> (worker: Option<WorkerDescriptor>)
        ensures
            old(self)@.len() == 0 ==> worker is None && final(self)@ == old(self)@,
            old(self)@.len() > 0 ==> worker == Some(old(self)@[0]) && final(self)@
                == old(self)@.skip(1),
    {
        proof {
            use_type_invariant(&*self);
        }
        if self.index < self.inner.len() {
            let worker = self.inner[self.index];
            self.index = self.index + 1;
            assert(self@ =~= old(self)@.skip(1));
            Some(worker)
        } else {
            None
        }
    }
}

/// Pool configuration.
#[derive(Clone, Debug)]
pub struct PoolConfig {
    /// Human-readable name for logging.
    pub name: String,
    /// Worker specification for allocation requests.
    pub spec: WorkerSpec,
    /// Acceptable price range.
    pub price: PriceRange,
    /// Minimum workers required. Job aborts if below this after grace period.
    pub min: usize,
    /// Target workers to pursue opportunistically.
    pub target: usize,
    /// Grace period when below min before aborting.
    pub grace: Duration,
}

/// Error indicating pool failure.
#[derive(Clone, Debug)]
pub enum PoolError {
    GraceExpired { name: String, min: usize },
    /// The task that maintains the pool could not be joined.
    Join(String),
}

impl PoolError {
    /// What the error says.
    pub open spec fn text(self) -> Seq<char> {
        match self {
            PoolError::GraceExpired { name, min } => "pool '"@ + name@
                + "' remained below minimum "@ + decimal(min as nat)
                + " workers after grace period expired"@,
            PoolError::Join(_) => "pool task failed to join"@,
        }
    }

    pub fn to_string(&self) -> (text: String)
        ensures
            text@ == self.text(),
    {
        match self {
            PoolError::GraceExpired { name, min } => {
                let count = usize_to_string(*min);
                "pool '".to_owned().concat(name.as_str()).concat(
                    "' remained below minimum ",
                ).concat(count.as_str()).concat(" workers after grace period expired")
            },
            PoolError::Join(_) => "pool task failed to join".to_owned(),
        }
    }
}

/// Why an allocation brought no workers.
#[derive(Clone, Debug)]
pub enum AllocatorError {
    NoOffersReceived,
    Timeout,
    Other(String),
}

/// A pool of workers that maintains membership and yields new workers as they join.
///
/// The pool is driven from outside: [`Pool::tick`] reconciles it periodically and says how many
/// workers it lacks, [`Pool::request`] says what to ask the allocator for, [`Pool::allocated`]
/// takes what the allocator brought, and [`Pool::exited`] removes a worker that ended.
#[derive(Debug)]
pub struct Pool {
    config: PoolConfig,
    members: PoolMembers,
    below_min_since: Option<Instant>,
}

/// Since when a pool of `count` workers has been below `min`, as seen at `now`.
pub open spec fn below_since(
    count: int,
    min: int,
    since: Option<Instant>,
    now: Instant,
) -> Option<Instant> {
    if count < min {
        match since {
            Some(start) => Some(start),
            None => Some(now),
        }
    } else {
        None
    }
}

/// Whether a pool of `count` workers, below `min` since `since`, has used up its grace period.
pub open spec fn grace_expired(
    count: int,
    min: int,
    grace: Duration,
    since: Option<Instant>,
    now: Instant,
) -> bool {
    &&& count < min
    &&& since matches Some(start) && start.nanos + grace.nanos <= now.nanos
}

/// How many workers a pool of `count` lacks.
pub open spec fn shortfall(count: int, target: int) -> int {
    if count < target {
        target - count
    } else {
        0
    }
}

/// Whether two specifications ask for the same.
pub open spec fn asks_the_same(first: WorkerSpec, second: WorkerSpec) -> bool {
    &&& first.resources == second.resources
    &&& first.executor@ == second.executor@
}

impl Pool {
    /// The number of the pool.
    pub closed spec fn id(self) -> nat {
        self.members.id()
    }

    pub closed spec fn configuration(self) -> PoolConfig {
        self.config
    }

    /// The tick at which the pool was first seen below its minimum, while it is below.
    pub closed spec fn below_min_since(self) -> Option<Instant> {
        self.below_min_since
    }

    /// Create a new pool with the given configuration.
    pub fn new(shared: &mut Memberships, config: PoolConfig) -> (pool: Pool)
        ensures
            pool.id() == old(shared)@.len(),
            final(shared)@ == old(shared)@.push(Seq::empty()),
            pool.configuration() == config,
            pool.below_min_since() is None,
    {
        let pool: usize = shared.add();
        Pool { config, members: PoolMembers { pool }, below_min_since: None }
    }

    /// Returns a cloneable handle for querying membership.
    pub fn members(&self) -> (members: PoolMembers)
        ensures
            members.id() == self.id(),
    {
        self.members
    }

    /// Returns a handle for read-only access to the membership.
    pub fn handle(&self) -> (handle: PoolHandle)
        ensures
            handle.id() == self.id(),
    {
        PoolHandle { members: self.members }
    }

    /// Reconciles the pool: fails once the grace period below the minimum is used up, otherwise
    /// says how many workers to ask for.
    pub fn tick(&mut self, shared: &Memberships, now: Instant) -> (needed: Result<
        usize,
        PoolError,
    >)
        ensures
            final(self).id() == old(self).id(),
            final(self).configuration() == old(self).configuration(),
            ({
                let config = old(self).configuration();
                let count = shared.of(old(self).id()).len() as int;
                let since = old(self).below_min_since();
                &&& final(self).below_min_since() == below_since(
                    count,
                    config.min as int,
                    since,
                    now,
                )
                &&& if grace_expired(count, config.min as int, config.grace, since, now) {
                    needed == Err::<usize, PoolError>(
                        PoolError::GraceExpired { name: config.name, min: config.min },
                    )
                } else {
                    needed == Ok::<usize, PoolError>(
                        shortfall(count, config.target as int) as usize,
                    )
                }
            }),
    {
        let count: usize = self.members.len(shared);
        if count < self.config.min {
            match self.below_min_since {
                Some(start) => {
                    if now.nanos >= start.nanos && now.nanos - start.nanos
                        >= self.config.grace.nanos {
                        return Err(
                            PoolError::GraceExpired {
                                name: self.config.name.clone(),
                                min: self.config.min,
                            },
                        );
                    }
                },
                None => {
                    self.below_min_since = Some(now);
                },
            }
        } else {
            self.below_min_since = None;
        }
        if count < self.config.target {
            Ok(self.config.target - count)
        } else {
            Ok(0)
        }
    }

    /// What to ask the allocator for: `needed` workers as the pool is configured to have, in its
    /// price range.
    pub fn request(&self, needed: usize) -> (asked: (WorkerSpec, PriceRange, usize))
        ensures
            asks_the_same(asked.0, self.configuration().spec),
            asked.1 == self.configuration().price,
            asked.2 == needed,
    {
        (self.config.spec.clone(), self.config.price, needed)
    }

    /// Takes the workers of an allocation into the pool and returns their descriptors, which are
    /// to be announced in this order. A failed allocation changes nothing.
    pub fn allocated(
        &self,
        shared: &mut Memberships,
        workers: Result<&Vec<Worker>, AllocatorError>,
    ) -> (joined: Vec<WorkerDescriptor>)
        requires
            self.id() < old(shared)@.len(),
        ensures
            final(shared)@ == old(shared)@.update(
                self.id() as int,
                old(shared).of(self.id()) + joined@,
            ),
            workers matches Ok(batch) ==> joined@ == batch@.map_values(
                |w: Worker| descriptor_of(w),
            ),
            workers is Err ==> joined@.len() == 0,
    {
        let mut members: Vec<WorkerDescriptor> = self.members.load(shared);
        let mut joined: Vec<WorkerDescriptor> = Vec::new();
        assert(members@ =~= old(shared).of(self.id()) + joined@);
        match workers {
            Ok(batch) => {
                for i in 0..batch.len()
                    invariant
                        members@ == old(shared).of(self.id()) + joined@,
                        joined@ == batch@.take(i as int).map_values(|w: Worker| descriptor_of(w)),
                {
                    let descriptor = WorkerDescriptor::from(&batch[i]);
                    members.push(descriptor);
                    joined.push(descriptor);
                    assert(members@ =~= old(shared).of(self.id()) + joined@);
                    assert(batch@.take(i + 1) =~= batch@.take(i as int).push(batch@[i as int]));
                    assert(joined@ =~= batch@.take(i + 1).map_values(|w: Worker| descriptor_of(w)));
                }
                assert(batch@.take(batch@.len() as int) =~= batch@);
            },
            Err(_) => {},
        }
        shared.store(self.members.pool, members);
        joined
    }

    /// Removes the worker on `peer`, which ended.
    pub fn exited(&self, shared: &mut Memberships, peer: PeerId)
        requires
            self.id() < old(shared)@.len(),
        ensures
            final(shared)@ == old(shared)@.update(
                self.id() as int,
                without(old(shared).of(self.id()), peer),
            ),
    {
        let members: Vec<WorkerDescriptor> = self.members.load(shared);
        let mut kept: Vec<WorkerDescriptor> = Vec::new();
        for i in 0..members.len()
            invariant
                kept@ == without(members@.take(i as int), peer),
        {
            let worker = members[i];
            proof {
                assert(members@.take(i + 1).drop_last() =~= members@.take(i as int));
                reveal(Seq::filter);
            }
            if worker.peer_id != peer {
                kept.push(worker);
            }
        }
        assert(members@.take(members@.len() as int) =~= members@);
        shared.store(self.members.pool, kept);
    }
}

/// Read-only view over pool membership.
#[derive(Clone, Copy, Debug, PartialEq, Eq, Structural)]
pub struct PoolHandle {
    members: PoolMembers,
}

impl PoolHandle {
    /// The number of the pool.
    pub closed spec fn id(self) -> nat {
        self.members.id()
    }

    pub fn members(&self) -> (members: PoolMembers)
        ensures
            members.id() == self.id(),
    {
        self.members
    }
}

/// A handle is live: whenever it was taken, it tells the workers that joined and exited since; and
/// the changes of one pool do not show in another.
pub proof fn law_handles_are_live(
    before: Memberships,
    after: Memberships,
    handle: PoolMembers,
    other: PoolMembers,
    members: Seq<WorkerDescriptor>,
)
    requires
        handle.id() < before@.len(),
        other.id() != handle.id(),
        after@ == before@.update(handle.id() as int, members),
    ensures
        after.of(handle.id()) == members,
        after.of(other.id()) == before.of(other.id()),
{
}

/// A pool that is added changes no other, and its handles tell no members until workers join.
pub proof fn law_new_pools_are_empty(
    before: Memberships,
    after: Memberships,
    pool: Pool,
    other: PoolMembers,
)
    requires
        pool.id() == before@.len(),
        after@ == before@.push(Seq::empty()),
        other.id() != pool.id(),
    ensures
        after.of(pool.id()) == Seq::<WorkerDescriptor>::empty(),
        after.of(other.id()) == before.of(other.id()),
{
}

/// What polling the task that maintains the pool gave.
#[derive(Debug)]
pub enum TaskPoll {
    Pending,
    Finished,
    Failed(PoolError),
    /// The task could not be joined, for the reason given.
    NotJoined(String),
}

/// What polling the queue of joined workers gave.
#[derive(Clone, Copy, Debug)]
pub enum JoinPoll {
    Pending,
    Worker(WorkerDescriptor),
    Closed,
}

/// What the stream of joined workers gives.
#[derive(Debug)]
pub enum StreamPoll {
    Pending,
    Item(Result<WorkerDescriptor, PoolError>),
    End,
}

/// The stream side of a pool: a failure of the task comes before any worker, and comes once.
#[derive(Debug)]
pub struct PoolStream {
    running: bool,
}

/// Whether polling the task gave a failure.
pub open spec fn failed(task: TaskPoll) -> bool {
    task is Failed || task is NotJoined
}

/// The failure that polling the task gave.
pub open spec fn failure_of(task: TaskPoll) -> PoolError
    recommends
        failed(task),
{
    match task {
        TaskPoll::Failed(error) => error,
        TaskPoll::NotJoined(reason) => PoolError::Join(reason),
        _ => arbitrary(),
    }
}

/// What the stream gives of the queue.
pub open spec fn queued_item(queue: JoinPoll) -> StreamPoll {
    match queue {
        JoinPoll::Pending => StreamPoll::Pending,
        JoinPoll::Worker(worker) => StreamPoll::Item(Ok(worker)),
        JoinPoll::Closed => StreamPoll::End,
    }
}

/// What the stream gives: a failure of the task while it is watched, else what is next in the
/// queue.
pub open spec fn stream_item(watches: bool, task: TaskPoll, queue: JoinPoll) -> StreamPoll {
    if watches && failed(task) {
        StreamPoll::Item(Err(failure_of(task)))
    } else {
        queued_item(queue)
    }
}

impl PoolStream {
    /// Whether the task is still watched.
    pub closed spec fn watches(self) -> bool {
        self.running
    }

    pub fn new() -> (stream: PoolStream)
        ensures
            stream.watches(),
    {
        PoolStream { running: true }
    }

    /// Whether the task is still to be polled before the queue.
    pub fn polls_task(&self) -> (polls: bool)
        ensures
            polls == self.watches(),
    {
        self.running
    }

    /// What the stream gives, from what polling the task gave and from the queue, which is polled
    /// only where the task did not fail: no worker is taken from it in vain. What polling the
    /// task gave counts only while the task is watched.
    pub fn poll_next<Q: FnOnce() -> JoinPoll>(&mut self, task: TaskPoll, queue: Q) -> (item:
        StreamPoll)
        requires
            !(old(self).watches() && failed(task)) ==> queue.requires(()),
        ensures
            final(self).watches() == (old(self).watches() && task is Pending),
            old(self).watches() && failed(task) ==> item == StreamPoll::Item(
                Err(failure_of(task)),
            ),
            !(old(self).watches() && failed(task)) ==> exists|poll: JoinPoll|
                queue.ensures((), poll) && item == #[trigger] queued_item(poll),
    {
        if self.running {
            match task {
                TaskPoll::Pending => {},
                TaskPoll::Finished => {
                    self.running = false;
                },
                TaskPoll::Failed(error) => {
                    self.running = false;
                    return StreamPoll::Item(Err(error));
                },
                TaskPoll::NotJoined(reason) => {
                    self.running = false;
                    return StreamPoll::Item(Err(PoolError::Join(reason)));
                },
            }
        }
        let poll = queue();
        let item = match poll {
            JoinPoll::Pending => StreamPoll::Pending,
            JoinPoll::Worker(worker) => StreamPoll::Item(Ok(worker)),
            JoinPoll::Closed => StreamPoll::End,
        };
        assert(item == queued_item(poll));
        item
    }
}

/// Whether the task is still watched after `polls` of the task.
pub open spec fn watches_after(polls: Seq<TaskPoll>) -> bool {
    forall|i: int| 0 <= i < polls.len() ==> (#[trigger] polls[i]) is Pending
}

/// The item that the stream gives at the poll `i`.
pub open spec fn item_at(polls: Seq<TaskPoll>, queue: Seq<JoinPoll>, i: int) -> StreamPoll {
    stream_item(watches_after(polls.take(i)), polls[i], queue[i])
}

/// Whether the stream gives a failure at the poll `i`.
pub open spec fn fails_at(polls: Seq<TaskPoll>, queue: Seq<JoinPoll>, i: int) -> bool {
    item_at(polls, queue, i) matches StreamPoll::Item(Err(_))
}

/// A poll of the task keeps it watched exactly while everything polled so far was pending.
pub proof fn law_pending_tasks_are_watched(polls: Seq<TaskPoll>, next: TaskPoll)
    ensures
        watches_after(Seq::empty()),
        watches_after(polls.push(next)) <==> watches_after(polls) && next is Pending,
{
    let all = polls.push(next);
    if watches_after(all) {
        assert(all[polls.len() as int] is Pending);
        assert forall|i: int| 0 <= i < polls.len() implies (#[trigger] polls[i]) is Pending by {
            assert(all[i] is Pending);
        }
    }
}

/// A failure of the watched task is given at once, before whatever is queued. Afterwards there
/// are only queued workers and the end: the stream gives at most one failure.
pub proof fn law_failure_comes_first_and_once(
    polls: Seq<TaskPoll>,
    queue: Seq<JoinPoll>,
    i: int,
    later: int,
)
    requires
        0 <= i < polls.len(),
    ensures
        fails_at(polls, queue, i) <==> watches_after(polls.take(i)) && failed(polls[i]),
        fails_at(polls, queue, i) && i < later < polls.len() ==> {
            &&& !fails_at(polls, queue, later)
            &&& item_at(polls, queue, later) == queued_item(queue[later])
        },
{
    if fails_at(polls, queue, i) && i < later < polls.len() {
        assert(polls.take(later)[i] == polls[i]);
        assert(!watches_after(polls.take(later)));
    }
}

/// What polling a queue gives in which `queue` waits and nothing more will come.
pub open spec fn front(queue: Seq<WorkerDescriptor>) -> JoinPoll {
    if queue.len() > 0 {
        JoinPoll::Worker(queue[0])
    } else {
        JoinPoll::Closed
    }
}

/// What waits in the queue after a poll of the stream: a failing poll does not take from it.
pub open spec fn queue_after(
    watches: bool,
    task: TaskPoll,
    queue: Seq<WorkerDescriptor>,
) -> Seq<WorkerDescriptor> {
    if (watches && failed(task)) || queue.len() == 0 {
        queue
    } else {
        queue.skip(1)
    }
}

/// The items of all polls, from a queue in which `queue` waits and nothing more will come.
pub open spec fn stream_items(
    watches: bool,
    polls: Seq<TaskPoll>,
    queue: Seq<WorkerDescriptor>,
) -> Seq<StreamPoll>
    decreases polls.len(),
{
    if polls.len() == 0 {
        Seq::empty()
    } else {
        seq![stream_item(watches, polls[0], front(queue))] + stream_items(
            watches && polls[0] is Pending,
            polls.skip(1),
            queue_after(watches, polls[0], queue),
        )
    }
}

proof fn lemma_queue_drains(polls: Seq<TaskPoll>, queue: Seq<WorkerDescriptor>, k: int)
    requires
        0 <= k < polls.len(),
    ensures
        stream_items(false, polls, queue).len() == polls.len(),
        stream_items(false, polls, queue)[k] == if k < queue.len() {
            StreamPoll::Item(Ok(queue[k]))
        } else {
            StreamPoll::End
        },
    decreases polls.len(),
{
    let rest = queue_after(false, polls[0], queue);
    if polls.len() > 1 {
        lemma_queue_drains(polls.skip(1), rest, if k > 0 { k - 1 } else { 0 });
    } else {
        assert(stream_items(false, polls.skip(1), rest).len() == 0);
    }
}

/// When the watched task has failed, the next poll gives the failure, ahead of the workers that
/// wait in the queue. The polls that follow give exactly those workers, in order, and then the
/// end, for ever.
pub proof fn law_failure_costs_no_worker(
    polls: Seq<TaskPoll>,
    queue: Seq<WorkerDescriptor>,
    k: int,
)
    requires
        polls.len() > 0,
        failed(polls[0]),
        0 <= k < polls.len(),
    ensures
        stream_items(true, polls, queue).len() == polls.len(),
        stream_items(true, polls, queue)[0] == StreamPoll::Item(Err(failure_of(polls[0]))),
        k > 0 ==> stream_items(true, polls, queue)[k] == if k <= queue.len() {
            StreamPoll::Item(Ok(queue[k - 1]))
        } else {
            StreamPoll::End
        },
{
    if k > 0 {
        lemma_queue_drains(polls.skip(1), queue, k - 1);
    } else if polls.len() > 1 {
        lemma_queue_drains(polls.skip(1), queue, 0);
    } else {
        assert(stream_items(false, polls.skip(1), queue).len() == 0);
    }
}

/// A worker leaves the pool when it exits, and no other worker does.
pub proof fn law_exit_removes_that_worker(
    workers: Seq<WorkerDescriptor>,
    peer: PeerId,
    worker: WorkerDescriptor,
)
    ensures
        without(workers, peer).contains(worker) <==> workers.contains(worker) && worker.peer_id
            != peer,
        !peers_of(without(workers, peer)).contains(peer),
    decreases workers.len(),
{
    reveal(Seq::filter);
    if workers.len() > 0 {
        let rest = workers.drop_last();
        let last = workers.last();
        law_exit_removes_that_worker(rest, peer, worker);
        assert(workers.contains(worker) <==> rest.contains(worker) || worker == last) by {
            if rest.contains(worker) {
                let i = rest.index_of(worker);
                assert(workers[i] == worker);
            }
            assert(workers[workers.len() - 1] == last);
            if workers.contains(worker) {
                let i = workers.index_of(worker);
                if i < rest.len() {
                    assert(rest[i] == worker);
                }
            }
        }
        let kept = without(rest, peer);
        if last.peer_id != peer {
            assert(without(workers, peer) == kept.push(last));
            assert(kept.push(last).contains(worker) <==> kept.contains(worker) || worker == last)
                by {
                if kept.contains(worker) {
                    let i = kept.index_of(worker);
                    assert(kept.push(last)[i] == worker);
                }
                assert(kept.push(last)[kept.len() as int] == last);
                if kept.push(last).contains(worker) {
                    let i = kept.push(last).index_of(worker);
                    if i < kept.len() {
                        assert(kept[i] == worker);
                    }
                }
            }
            assert(peers_of(kept.push(last)) =~= peers_of(kept).push(last.peer_id));
            if peers_of(kept.push(last)).contains(peer) {
                let i = peers_of(kept.push(last)).index_of(peer);
                assert(i < kept.len());
                assert(peers_of(kept)[i] == peer);
            }
        }
    }
}

/// Workers that join behind others stay behind them: the exit of a worker reorders nothing.
pub proof fn law_exit_keeps_the_order(
    older: Seq<WorkerDescriptor>,
    newer: Seq<WorkerDescriptor>,
    peer: PeerId,
)
    ensures
        without(older + newer, peer) == without(older, peer) + without(newer, peer),
    decreases newer.len(),
{
    reveal(Seq::filter);
    if newer.len() == 0 {
        assert(older + newer =~= older);
        assert(without(older, peer) + without(newer, peer) =~= without(older, peer));
    } else {
        law_exit_keeps_the_order(older, newer.drop_last(), peer);
        assert((older + newer).drop_last() =~= older + newer.drop_last());
        assert((older + newer).last() == newer.last());
        assert(without(older + newer, peer) =~= without(older, peer) + without(newer, peer));
    }
}

/// A worker that exits right after it joined leaves the pool as it was, if it was not a member
/// before.
pub proof fn law_exit_undoes_join(workers: Seq<WorkerDescriptor>, joined: WorkerDescriptor)
    requires
        !peers_of(workers).contains(joined.peer_id),
    ensures
        without(workers.push(joined), joined.peer_id) == workers,
    decreases workers.len(),
{
    reveal(Seq::filter);
    assert(workers.push(joined).drop_last() =~= workers);
    lemma_exit_of_a_stranger(workers, joined.peer_id);
}

proof fn lemma_exit_of_a_stranger(workers: Seq<WorkerDescriptor>, peer: PeerId)
    requires
        !peers_of(workers).contains(peer),
    ensures
        without(workers, peer) == workers,
    decreases workers.len(),
{
    reveal(Seq::filter);
    if workers.len() > 0 {
        let rest = workers.drop_last();
        assert(peers_of(workers)[workers.len() - 1] == workers.last().peer_id);
        assert(!peers_of(rest).contains(peer)) by {
            if peers_of(rest).contains(peer) {
                let i = peers_of(rest).index_of(peer);
                assert(peers_of(workers)[i] == peer);
            }
        }
        lemma_exit_of_a_stranger(rest, peer);
        assert(rest.push(workers.last()) =~= workers);
    }
}

/// The oldest worker stays first until it exits itself, whoever joins or exits meanwhile.
pub proof fn law_oldest_stays_first(
    workers: Seq<WorkerDescriptor>,
    joined: Seq<WorkerDescriptor>,
    peer: PeerId,
)
    requires
        workers.len() > 0,
    ensures
        (workers + joined)[0] == workers[0],
        workers[0].peer_id != peer ==> without(workers, peer).len() > 0 && without(workers, peer)[0]
            == workers[0],
{
    if workers[0].peer_id != peer {
        let first = workers.take(1);
        let rest = workers.skip(1);
        assert(first + rest =~= workers);
        law_exit_keeps_the_order(first, rest, peer);
        reveal(Seq::filter);
        assert(first.drop_last() =~= Seq::empty());
        assert(without(first.drop_last(), peer) =~= Seq::empty());
        assert(without(first, peer) =~= first);
    }
}

/// The tick at which a pool was first seen below `min`, after ticks that each saw a number of
/// workers at an instant.
pub open spec fn since_after(ticks: Seq<(int, Instant)>, min: int) -> Option<Instant>
    decreases ticks.len(),
{
    if ticks.len() == 0 {
        None
    } else {
        let (count, now) = ticks.last();
        below_since(count, min, since_after(ticks.drop_last(), min), now)
    }
}

/// Whether every tick from the one at `first` on saw fewer workers than `min`.
pub open spec fn below_from(ticks: Seq<(int, Instant)>, min: int, first: int) -> bool {
    forall|i: int| first <= i < ticks.len() ==> (#[trigger] ticks[i]).0 < min
}

/// A pool remembers the first tick of the current stretch below its minimum.
proof fn lemma_since_is_the_start(ticks: Seq<(int, Instant)>, min: int) -> (first: int)
    ensures
        0 <= first <= ticks.len(),
        below_from(ticks, min, first),
        first == ticks.len() ==> since_after(ticks, min) is None,
        first < ticks.len() ==> since_after(ticks, min) == Some(ticks[first].1),
        first > 0 ==> ticks[first - 1].0 >= min,
    decreases ticks.len(),
{
    if ticks.len() == 0 {
        0
    } else {
        let before = ticks.drop_last();
        let start = lemma_since_is_the_start(before, min);
        assert forall|i: int| 0 <= i < before.len() implies (#[trigger] ticks[i]) == before[i] by {}
        if ticks.last().0 >= min {
            ticks.len() as int
        } else {
            assert forall|i: int| start <= i < ticks.len() implies (#[trigger] ticks[i]).0 < min by {
                if i < before.len() {
                    assert(before[i].0 < min);
                }
            }
            start
        }
    }
}

/// A pool fails only when it has been below its minimum for the whole grace period: since a tick
/// that long ago, every tick saw too few workers.
pub proof fn law_grace_is_granted(
    ticks: Seq<(int, Instant)>,
    min: int,
    grace: Duration,
    count: int,
    now: Instant,
)
    requires
        grace_expired(count, min, grace, since_after(ticks, min), now),
    ensures
        count < min,
        exists|first: int|
            0 <= first < ticks.len() && (#[trigger] ticks[first]).1.nanos + grace.nanos <= now.nanos
                && below_from(ticks, min, first),
{
    let first = lemma_since_is_the_start(ticks, min);
    assert(ticks[first].1.nanos + grace.nanos <= now.nanos);
}

/// A pool that has been below its minimum for the whole grace period fails at the next tick, the
/// clock being monotonic.
pub proof fn law_grace_ends(
    ticks: Seq<(int, Instant)>,
    min: int,
    grace: Duration,
    first: int,
    count: int,
    now: Instant,
)
    requires
        forall|i: int, j: int|
            0 <= i < j < ticks.len() ==> (#[trigger] ticks[i]).1.nanos <= (
            #[trigger] ticks[j]).1.nanos,
        0 <= first < ticks.len(),
        below_from(ticks, min, first),
        ticks[first].1.nanos + grace.nanos <= now.nanos,
        count < min,
    ensures
        grace_expired(count, min, grace, since_after(ticks, min), now),
{
    let start = lemma_since_is_the_start(ticks, min);
    if start > first {
        assert(ticks[start - 1].0 < min);
    }
    assert(start <= first);
}

/// A pool that is seen with enough workers has its whole grace period again.
pub proof fn law_recovery_resets_the_grace(
    ticks: Seq<(int, Instant)>,
    min: int,
    grace: Duration,
    count: int,
    now: Instant,
    next_count: int,
    next: Instant,
)
    requires
        count >= min,
    ensures
        !grace_expired(count, min, grace, since_after(ticks, min), now),
        since_after(ticks.push((count, now)), min) is None,
        !grace_expired(next_count, min, grace, since_after(ticks.push((count, now)), min), next),
{
}

/// A change of the membership of a pool.
pub enum Change {
    /// These workers joined, in this order.
    Joined(Seq<WorkerDescriptor>),
    /// The worker on this peer exited.
    Exited(PeerId),
}

/// The members of a pool after the changes, oldest first.
pub open spec fn members_after(changes: Seq<Change>) -> Seq<WorkerDescriptor>
    decreases changes.len(),
{
    if changes.len() == 0 {
        Seq::empty()
    } else {
        let before = members_after(changes.drop_last());
        match changes.last() {
            Change::Joined(workers) => before + workers,
            Change::Exited(peer) => without(before, peer),
        }
    }
}

/// Whether `worker` joined with the change at `i` and has not exited since.
pub open spec fn stayed_since(changes: Seq<Change>, worker: WorkerDescriptor, i: int) -> bool {
    &&& 0 <= i < changes.len()
    &&& changes[i] matches Change::Joined(workers) && workers.contains(worker)
    &&& forall|j: int|
        i < j < changes.len() ==> (#[trigger] changes[j]) != Change::Exited(worker.peer_id)
}

/// The members of a pool are exactly the workers that joined and have not exited since.
pub proof fn law_members_are_those_that_stayed(changes: Seq<Change>, worker: WorkerDescriptor)
    ensures
        members_after(changes).contains(worker) <==> exists|i: int|
            #[trigger] stayed_since(changes, worker, i),
    decreases changes.len(),
{
    if changes.len() > 0 {
        let earlier = changes.drop_last();
        let before = members_after(earlier);
        let last = changes.len() - 1;
        law_members_are_those_that_stayed(earlier, worker);
        assert forall|i: int| 0 <= i < last implies (#[trigger] changes[i]) == earlier[i] by {}
        match changes.last() {
            Change::Joined(workers) => {
                let now = before + workers;
                if before.contains(worker) {
                    let i = choose|i: int| #[trigger] stayed_since(earlier, worker, i);
                    assert(stayed_since(changes, worker, i)) by {
                        assert forall|j: int| i < j < changes.len() implies (#[trigger] changes[j])
                            != Change::Exited(worker.peer_id) by {
                            if j < last {
                                assert(earlier[j] != Change::Exited(worker.peer_id));
                            }
                        }
                    }
                    let k = before.index_of(worker);
                    assert(now[k] == worker);
                }
                if workers.contains(worker) {
                    assert(stayed_since(changes, worker, last));
                    let k = workers.index_of(worker);
                    assert(now[before.len() + k] == worker);
                }
                if now.contains(worker) {
                    let k = now.index_of(worker);
                    if k < before.len() {
                        assert(before[k] == worker);
                    } else {
                        assert(workers[k - before.len()] == worker);
                    }
                }
            },
            Change::Exited(peer) => {
                law_exit_removes_that_worker(before, peer, worker);
                if before.contains(worker) && worker.peer_id != peer {
                    let i = choose|i: int| #[trigger] stayed_since(earlier, worker, i);
                    assert(stayed_since(changes, worker, i)) by {
                        assert forall|j: int| i < j < changes.len() implies (#[trigger] changes[j])
                            != Change::Exited(worker.peer_id) by {
                            if j < last {
                                assert(earlier[j] != Change::Exited(worker.peer_id));
                            }
                        }
                    }
                }
            },
        }
        if exists|i: int| #[trigger] stayed_since(changes, worker, i) {
            let i = choose|i: int| #[trigger] stayed_since(changes, worker, i);
            assert(changes[last] == changes.last());
            if i < last {
                assert(changes[last] != Change::Exited(worker.peer_id));
                assert(stayed_since(earlier, worker, i)) by {
                    assert forall|j: int| i < j < earlier.len() implies (#[trigger] earlier[j])
                        != Change::Exited(worker.peer_id) by {
                        assert(changes[j] != Change::Exited(worker.peer_id));
                    }
                }
            }
        }
    }
}

/// Whether each batch of workers that joined was no larger than what the pool lacked.
pub open spec fn as_asked(changes: Seq<Change>, target: int) -> bool {
    forall|i: int|
        0 <= i < changes.len() ==> ((#[trigger] changes[i]) matches Change::Joined(workers)
            ==> workers.len() <= shortfall(members_after(changes.take(i)).len() as int, target))
}

/// A pool never outgrows its target as long as no allocation brings more than it asked for; and
/// with what it asks for next it reaches its target, whoever exited before.
pub proof fn law_pool_pursues_its_target(changes: Seq<Change>, target: int)
    requires
        0 <= target,
        as_asked(changes, target),
    ensures
        members_after(changes).len() <= target,
        members_after(changes).len() + shortfall(members_after(changes).len() as int, target)
            == target,
    decreases changes.len(),
{
    if changes.len() > 0 {
        let earlier = changes.drop_last();
        let last = changes.len() - 1;
        assert(changes.take(last) =~= earlier);
        assert forall|i: int| 0 <= i < earlier.len() implies ((#[trigger] earlier[i])
            matches Change::Joined(workers) ==> workers.len() <= shortfall(
            members_after(earlier.take(i)).len() as int,
            target,
        )) by {
            assert(changes[i] == earlier[i]);
            assert(changes.take(i) =~= earlier.take(i));
        }
        law_pool_pursues_its_target(earlier, target);
        assert(changes[last] == changes.last());
        if let Change::Exited(peer) = changes.last() {
            members_after(earlier).lemma_filter_len(|w: WorkerDescriptor| w.peer_id != peer);
        }
    }
}

/// A descriptor tells who the worker is and what it offered, whatever was asked of it: for a worker
/// that was created with `peer` and `resources` it holds these two.
pub proof fn law_descriptors_tell_what_was_offered(
    lease: Uuid,
    peer: PeerId,
    asked: WorkerSpec,
    resources: Resources,
    price: Double,
    worker: Worker,
    descriptor: WorkerDescriptor,
)
    requires
        call_ensures(Worker::create, (lease, peer, asked, resources, price), worker),
        call_ensures(<WorkerDescriptor as From<&Worker>>::from, (&worker,), descriptor),
    ensures
        descriptor.peer_id == peer,
        descriptor.resources.gpu == resources.gpu,
        descriptor.resources.cpu == resources.cpu,
        descriptor.resources.memory == resources.memory,
{
}

/// Every worker of an allocation becomes a member, behind those that were members before, in the
/// order of the allocation, with the peer that it has and the resources that it offered, and is
/// announced as such. Other pools stay as they are.
pub proof fn law_allocated_workers_become_members(
    pool: &Pool,
    shared: &mut Memberships,
    batch: &Vec<Worker>,
    joined: Vec<WorkerDescriptor>,
    other: nat,
    i: int,
)
    requires
        pool.id() < old(shared)@.len(),
        call_ensures(Pool::allocated, (pool, shared, Ok(batch)), joined),
        other != pool.id(),
    ensures
        joined@.len() == batch@.len(),
        0 <= i < batch@.len() ==> joined@[i].peer_id == batch@[i].peer() && joined@[i].resources
            == batch@[i].offered(),
        ({
            let before = old(shared).of(pool.id());
            let after = final(shared).of(pool.id());
            &&& after.len() == before.len() + batch@.len()
            &&& 0 <= i < before.len() ==> after[i] == before[i]
            &&& 0 <= i < batch@.len() ==> after[before.len() + i].peer_id == batch@[i].peer()
                && after[before.len() + i].resources == batch@[i].offered()
        }),
        final(shared).of(other) == old(shared).of(other),
{
}

/// An allocation that failed changes no pool, and nobody is announced.
pub proof fn law_failed_allocations_change_nothing(
    pool: &Pool,
    shared: &mut Memberships,
    error: AllocatorError,
    joined: Vec<WorkerDescriptor>,
    any: nat,
)
    requires
        pool.id() < old(shared)@.len(),
        call_ensures(Pool::allocated, (pool, shared, Err(error)), joined),
    ensures
        joined@.len() == 0,
        final(shared).of(any) == old(shared).of(any),
{
    assert(old(shared).of(pool.id()) + joined@ =~= old(shared).of(pool.id()));
}

/// The exit of a worker takes it, and no other, out of its pool. Other pools stay as they are.
pub proof fn law_exits_take_one_worker_out(
    pool: &Pool,
    shared: &mut Memberships,
    peer: PeerId,
    worker: WorkerDescriptor,
    other: nat,
)
    requires
        pool.id() < old(shared)@.len(),
        call_ensures(Pool::exited, (pool, shared, peer), ()),
        other != pool.id(),
    ensures
        final(shared).of(pool.id()) == without(old(shared).of(pool.id()), peer),
        final(shared).of(pool.id()).contains(worker) <==> old(shared).of(pool.id()).contains(worker)
            && worker.peer_id != peer,
        final(shared).of(other) == old(shared).of(other),
{
    law_exit_removes_that_worker(old(shared).of(pool.id()), peer, worker);
}

/// The exit of a worker leaves those before it and those behind it as they were, in their order.
pub proof fn law_exit_leaves_the_others(
    older: Seq<WorkerDescriptor>,
    worker: WorkerDescriptor,
    newer: Seq<WorkerDescriptor>,
)
    requires
        !peers_of(older).contains(worker.peer_id),
        !peers_of(newer).contains(worker.peer_id),
    ensures
        without(older.push(worker) + newer, worker.peer_id) == older + newer,
{
    law_exit_keeps_the_order(older.push(worker), newer, worker.peer_id);
    law_exit_undoes_join(older, worker);
    lemma_exit_of_a_stranger(newer, worker.peer_id);
}

/// Pools start without members, side by side, each with the configuration that it was made with;
/// its handles name it.
pub proof fn law_pools_start_empty(
    shared: &mut Memberships,
    config: PoolConfig,
    pool: Pool,
    members: PoolMembers,
    handle: PoolHandle,
    again: PoolMembers,
    other: nat,
)
    requires
        call_ensures(Pool::new, (shared, config), pool),
        call_ensures(Pool::members, (&pool,), members),
        call_ensures(Pool::handle, (&pool,), handle),
        call_ensures(PoolHandle::members, (&handle,), again),
        other < old(shared)@.len(),
    ensures
        final(shared).of(pool.id()).len() == 0,
        final(shared).of(other) == old(shared).of(other),
        pool.id() != other,
        pool.configuration() == config,
        pool.below_min_since() is None,
        members.id() == pool.id(),
        again.id() == pool.id(),
{
}

/// All that a handle tells of the members agrees: their number, the workers, and their peers, in
/// the same order.
pub proof fn law_handles_tell_the_members(
    handle: &PoolMembers,
    shared: &Memberships,
    members: Vec<WorkerDescriptor>,
    peers: Vec<PeerId>,
    len: usize,
    empty: bool,
    i: int,
)
    requires
        call_ensures(PoolMembers::load, (handle, shared), members),
        call_ensures(PoolMembers::peers, (handle, shared), peers),
        call_ensures(PoolMembers::len, (handle, shared), len),
        call_ensures(PoolMembers::is_empty, (handle, shared), empty),
    ensures
        members@ == shared.of(handle.id()),
        handle.id() < shared@.len() ==> members@ == shared@[handle.id() as int],
        len == members@.len(),
        empty <==> members@.len() == 0,
        peers@.len() == members@.len(),
        0 <= i < members@.len() ==> peers@[i] == members@[i].peer_id,
{
}

/// To walk over the members gives each of them once, in order.
pub proof fn law_walks_give_every_member(
    handle: &PoolMembers,
    shared: &Memberships,
    start: PoolMemberIter,
    walk: &mut PoolMemberIter,
    given: Option<WorkerDescriptor>,
    k: int,
)
    requires
        call_ensures(PoolMembers::iter, (handle, shared), start),
        0 <= k <= shared.of(handle.id()).len(),
        old(walk)@ == start@.skip(k),
        call_ensures(PoolMemberIter::next, (walk,), given),
    ensures
        k < shared.of(handle.id()).len() ==> given == Some(shared.of(handle.id())[k])
            && final(walk)@ == start@.skip(k + 1),
        k == shared.of(handle.id()).len() ==> given is None && final(walk)@ == old(walk)@,
{
    if k < shared.of(handle.id()).len() {
        assert(start@.skip(k).skip(1) =~= start@.skip(k + 1));
    }
}

/// The peers of workers are theirs, one for each, in the same order.
pub proof fn law_peers_are_those_of_the_workers(workers: Seq<WorkerDescriptor>, i: int)
    ensures
        peers_of(workers).len() == workers.len(),
        0 <= i < workers.len() ==> peers_of(workers)[i] == workers[i].peer_id,
{
}

/// The exit of a worker that is no member changes nothing, and the exit of the only member leaves
/// nobody.
pub proof fn law_exit_concerns_members_only(
    workers: Seq<WorkerDescriptor>,
    only: WorkerDescriptor,
    peer: PeerId,
)
    ensures
        (forall|i: int| 0 <= i < workers.len() ==> (#[trigger] workers[i]).peer_id != peer)
            ==> without(workers, peer) == workers,
        without(seq![only], only.peer_id) == Seq::<WorkerDescriptor>::empty(),
{
    if forall|i: int| 0 <= i < workers.len() ==> (#[trigger] workers[i]).peer_id != peer {
        if peers_of(workers).contains(peer) {
            let i = peers_of(workers).index_of(peer);
            assert(workers[i].peer_id != peer);
        }
        lemma_exit_of_a_stranger(workers, peer);
    }
    let nobody = Seq::<WorkerDescriptor>::empty();
    assert(nobody.push(only) =~= seq![only]);
    law_exit_undoes_join(nobody, only);
}

/// A tick asks for what is missing to the target, and for nothing where there are that many workers
/// or more. The pool counts as below its minimum since the first tick that saw it so in a row, and
/// fails exactly when it still is and the grace period since then is over; the failure names the
/// pool and its minimum.
pub proof fn law_what_a_tick_does(
    pool: &mut Pool,
    shared: &Memberships,
    now: Instant,
    needed: Result<usize, PoolError>,
)
    requires
        call_ensures(Pool::tick, (pool, shared, now), needed),
    ensures
        final(pool).id() == old(pool).id(),
        final(pool).configuration() == old(pool).configuration(),
        ({
            let config = old(pool).configuration();
            let count = shared.of(old(pool).id()).len();
            let since = old(pool).below_min_since();
            &&& needed is Err <==> {
                &&& count < config.min
                &&& since is Some
                &&& now.nanos - since->0.nanos >= config.grace.nanos
            }
            &&& needed matches Err(error) ==> error matches PoolError::GraceExpired { name, min }
                && name@ == config.name@ && min == config.min
            &&& needed is Ok && count <= config.target ==> count + needed->Ok_0 == config.target
            &&& needed is Ok && count >= config.target ==> needed->Ok_0 == 0
            &&& final(pool).below_min_since() is Some <==> count < config.min
            &&& count < config.min ==> final(pool).below_min_since() == (if since is Some {
                since
            } else {
                Some(now)
            })
        }),
{
}

/// What is asked for is what the pool is configured with: its resources and its executors, each at
/// its place, in its price range, and as many workers as are needed.
pub proof fn law_requests_ask_for_what_is_configured(
    pool: &Pool,
    needed: usize,
    asked: (WorkerSpec, PriceRange, usize),
    i: int,
)
    requires
        call_ensures(Pool::request, (pool, needed), asked),
    ensures
        ({
            let configured = pool.configuration().spec;
            &&& asked.0.resources.cpu == configured.resources.cpu
            &&& asked.0.resources.gpu == configured.resources.gpu
            &&& asked.0.resources.memory == configured.resources.memory
            &&& asked.0.executor@.len() == configured.executor@.len()
            &&& 0 <= i < configured.executor@.len() ==> asked.0.executor@[i]
                == configured.executor@[i]
            &&& asked.1.bid == pool.configuration().price.bid
            &&& asked.1.max == pool.configuration().price.max
            &&& asked.2 == needed
        }),
{
}

/// A stream hands on unchanged what it gets: while the task is watched, the error that it failed
/// with, or why it could not be joined; else what the queue gives. It watches the task as long as
/// that is pending.
pub proof fn law_streams_hand_on_what_they_get<Q: FnOnce() -> JoinPoll>(
    stream: &mut PoolStream,
    task: TaskPoll,
    queue: Q,
    item: StreamPoll,
    fresh: PoolStream,
)
    requires
        call_ensures(PoolStream::new, (), fresh),
        call_ensures(PoolStream::poll_next::<Q>, (stream, task, queue), item),
    ensures
        fresh.watches(),
        final(stream).watches() <==> old(stream).watches() && task is Pending,
        old(stream).watches() ==> (task matches TaskPoll::Failed(error) ==> item
            == StreamPoll::Item(Err(error))),
        old(stream).watches() ==> (task matches TaskPoll::NotJoined(reason) ==> item
            == StreamPoll::Item(Err(PoolError::Join(reason)))),
        !old(stream).watches() || task is Pending || task is Finished ==> exists|poll: JoinPoll| #[trigger]
            queue.ensures((), poll) && (match poll {
                JoinPoll::Worker(worker) => item == StreamPoll::Item(Ok(worker)),
                JoinPoll::Pending => item is Pending,
                JoinPoll::Closed => item is End,
            }),
{
}

/// The text of a pool that failed names the pool and its minimum.
pub proof fn law_failures_name_the_pool(name: String, min: usize, text: String)
    requires
        call_ensures(PoolError::to_string, (&PoolError::GraceExpired { name, min },), text),
    ensures
        ({
            let head = "pool '"@ + name@;
            let middle = "' remained below minimum "@;
            let tail = decimal(min as nat) + " workers after grace period expired"@;
            &&& text@.len() == head.len() + middle.len() + tail.len()
            &&& text@.take(head.len() as int) == head
            &&& text@.skip(head.len() as int).take(middle.len() as int) == middle
            &&& text@.skip((head.len() + middle.len()) as int) == tail
        }),
{
    let head = "pool '"@ + name@;
    let middle = "' remained below minimum "@;
    let tail = decimal(min as nat) + " workers after grace period expired"@;
    assert(text@ =~= head + middle + tail);
    assert(text@.take(head.len() as int) =~= head);
    assert(text@.skip(head.len() as int).take(middle.len() as int) =~= middle);
    assert(text@.skip((head.len() + middle.len()) as int) =~= tail);
}

/// A copy of the memberships has the members of every pool, and where there are no pools nobody is
/// a member.
pub proof fn law_copies_have_the_members(
    shared: &Memberships,
    copy: Memberships,
    none: Memberships,
    any: nat,
)
    requires
        call_ensures(<Memberships as Clone>::clone, (shared,), copy),
        call_ensures(Memberships::new, (), none),
    ensures
        copy.of(any) == shared.of(any),
        none.of(any).len() == 0,
{
}

} // verus!
