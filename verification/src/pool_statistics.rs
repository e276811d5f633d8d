//! Pools whose members are measured: the time between two reports of a worker feeds a statistic.

use std::marker::PhantomData;
use vstd::prelude::*;

use crate::ids::PeerId;
use crate::pool::{
    peers_in, peers_of, Memberships, Pool, PoolHandle, PoolMembers, WorkerDescriptor,
};
use crate::resources::Resources;
use crate::statistics::{
    law_no_samples_read_zero, law_running_mean_is_the_mean, replay, sum, RunningMean,
    RuntimeStatistic,
};

verus! {

/// The clock reading of the latest report of a worker.
pub type LastUpdated = u64;

/// Descriptor enriched with an optional statistic value.
#[derive(Clone, Copy, Debug, PartialEq, Eq, Structural)]
pub struct WorkerDescriptorWithStats {
    pub peer_id: PeerId,
    pub resources: Resources,
    pub last_updated: Option<LastUpdated>,
    pub statistic: Option<u64>,
}

impl WorkerDescriptorWithStats {
    pub fn new(
        descriptor: &WorkerDescriptor,
        last_updated: Option<LastUpdated>,
        statistic: Option<u64>,
    ) -> (enriched: WorkerDescriptorWithStats)
        ensures
            enriched == (WorkerDescriptorWithStats {
                peer_id: descriptor.peer_id,
                resources: descriptor.resources,
                last_updated,
                statistic,
            }),
    {
        WorkerDescriptorWithStats {
            peer_id: descriptor.peer_id,
            resources: descriptor.resources,
            last_updated,
            statistic,
        }
    }
}

struct Entry<T> {
    peer_id: PeerId,
    last_updated: LastUpdated,
    statistic: T,
}

/// The statistics of workers, one for each peer that reported.
pub struct StatisticsTable<T> {
    entries: Vec<Entry<T>>,
}

spec fn has_entry<T>(entries: Seq<Entry<T>>, peer: PeerId) -> bool {
    exists|i: int| 0 <= i < entries.len() && #[trigger] entries[i].peer_id == peer
}

spec fn entry_of<T>(entries: Seq<Entry<T>>, peer: PeerId) -> Entry<T> {
    entries[choose|i: int| 0 <= i < entries.len() && #[trigger] entries[i].peer_id == peer]
}

spec fn distinct<T>(entries: Seq<Entry<T>>) -> bool {
    forall|i: int, j: int|
        0 <= i < j < entries.len() ==> #[trigger] entries[i].peer_id
            != #[trigger] entries[j].peer_id
}

/// The table after a report of `peer` at `now`: the first report starts a statistic, a later one
/// feeds it the time since the previous.
pub open spec fn reported<T: RuntimeStatistic>(
    table: Map<PeerId, (LastUpdated, T)>,
    peer: PeerId,
    now: u64,
) -> Map<PeerId, (LastUpdated, T)> {
    if table.dom().contains(peer) {
        let (last, statistic) = table[peer];
        let sample = if now >= last {
            (now - last) as u64
        } else {
            0u64
        };
        table.insert(peer, (now, statistic.after(sample)))
    } else {
        table.insert(peer, (now, T::fresh()))
    }
}

/// The entries of the table whose peers are among `workers`.
pub open spec fn pruned<T>(
    table: Map<PeerId, (LastUpdated, T)>,
    workers: Seq<WorkerDescriptor>,
) -> Map<PeerId, (LastUpdated, T)> {
    table.restrict(Set::new(|p: PeerId| peers_of(workers).contains(p)))
}

/// A worker with its latest report and the reading of its statistic, if it reported.
pub open spec fn enriched<T: RuntimeStatistic>(
    table: Map<PeerId, (LastUpdated, T)>,
    worker: WorkerDescriptor,
) -> WorkerDescriptorWithStats {
    let known = table.dom().contains(worker.peer_id);
    WorkerDescriptorWithStats {
        peer_id: worker.peer_id,
        resources: worker.resources,
        last_updated: if known {
            Some(table[worker.peer_id].0)
        } else {
            None
        },
        statistic: if known {
            Some(table[worker.peer_id].1.reading())
        } else {
            None
        },
    }
}

impl<T> View for StatisticsTable<T> {
    type V = Map<PeerId, (LastUpdated, T)>;

    closed spec fn view(&self) -> Map<PeerId, (LastUpdated, T)> {
        Map::new(
            |p: PeerId| has_entry(self.entries@, p),
            |p: PeerId|
                (entry_of(self.entries@, p).last_updated, entry_of(self.entries@, p).statistic),
        )
    }
}

impl<T: RuntimeStatistic> StatisticsTable<T> {
    /// No peer has two entries.
    pub closed spec fn wf(&self) -> bool {
        distinct(self.entries@)
    }

    proof fn lemma_entry(&self, i: int)
        requires
            self.wf(),
            0 <= i < self.entries@.len(),
        ensures
            self@.dom().contains(self.entries@[i].peer_id),
            self@[self.entries@[i].peer_id] == (
                self.entries@[i].last_updated,
                self.entries@[i].statistic,
            ),
    {
        let peer = self.entries@[i].peer_id;
        assert(has_entry(self.entries@, peer));
        let j = choose|j: int|
            0 <= j < self.entries@.len() && #[trigger] self.entries@[j].peer_id == peer;
        assert(j == i);
    }

    pub fn new() -> (table: StatisticsTable<T>)
        ensures
            table.wf(),
            table@ == Map::<PeerId, (LastUpdated, T)>::empty(),
    {
        let table = StatisticsTable { entries: Vec::new() };
        assert(table@ =~= Map::<PeerId, (LastUpdated, T)>::empty());
        table
    }

    fn find(&self, peer: PeerId) -> (found: Option<usize>)
        ensures
            found matches Some(i) ==> i < self.entries@.len() && self.entries@[i as int].peer_id
                == peer,
            found is None ==> !has_entry(self.entries@, peer),
    {
        for i in 0..self.entries.len()
            invariant
                forall|j: int| 0 <= j < i ==> #[trigger] self.entries@[j].peer_id != peer,
        {
            if self.entries[i].peer_id == peer {
                return Some(i);
            }
        }
        None
    }

    /// Update statistics for a worker with the given timestamp.
    pub fn update(&mut self, peer_id: &PeerId, now: u64)
        requires
            old(self).wf(),
        ensures
            final(self).wf(),
            final(self)@ == reported(old(self)@, *peer_id, now),
    {
        let ghost before = *self;
        match self.find(*peer_id) {
            Some(i) => {
                proof {
                    before.lemma_entry(i as int);
                }
                let entry = &mut self.entries[i];
                let sample: u64 = now.saturating_sub(entry.last_updated);
                entry.statistic.update(sample);
                entry.last_updated = now;
                proof {
                    assert forall|p: PeerId| self@.dom().contains(p) <==> reported(
                        before@,
                        *peer_id,
                        now,
                    ).dom().contains(p) by {
                        if has_entry(before.entries@, p) {
                            let j = choose|j: int|
                                0 <= j < before.entries@.len() && #[trigger] before.entries@[j].peer_id
                                    == p;
                            assert(self.entries@[j].peer_id == p);
                        }
                        if has_entry(self.entries@, p) {
                            let j = choose|j: int|
                                0 <= j < self.entries@.len() && #[trigger] self.entries@[j].peer_id
                                    == p;
                            assert(before.entries@[j].peer_id == p);
                        }
                    }
                    assert forall|p: PeerId| self@.dom().contains(p) implies self@[p] == reported(
                        before@,
                        *peer_id,
                        now,
                    )[p] by {
                        let j = choose|j: int|
                            0 <= j < self.entries@.len() && #[trigger] self.entries@[j].peer_id == p;
                        self.lemma_entry(j);
                        before.lemma_entry(j);
                    }
                    assert(self@ =~= reported(before@, *peer_id, now));
                }
            },
            None => {
                self.entries.push(
                    Entry { peer_id: *peer_id, last_updated: now, statistic: T::initial() },
                );
                proof {
                    let n = before.entries@.len() as int;
                    assert(self.entries@[n].peer_id == *peer_id);
                    assert forall|p: PeerId| self@.dom().contains(p) <==> reported(
                        before@,
                        *peer_id,
                        now,
                    ).dom().contains(p) by {
                        if has_entry(before.entries@, p) {
                            let j = choose|j: int|
                                0 <= j < before.entries@.len() && #[trigger] before.entries@[j].peer_id
                                    == p;
                            assert(self.entries@[j].peer_id == p);
                        }
                        if has_entry(self.entries@, p) {
                            let j = choose|j: int|
                                0 <= j < self.entries@.len() && #[trigger] self.entries@[j].peer_id
                                    == p;
                            if j < n {
                                assert(before.entries@[j].peer_id == p);
                            }
                        }
                    }
                    assert forall|p: PeerId| self@.dom().contains(p) implies self@[p] == reported(
                        before@,
                        *peer_id,
                        now,
                    )[p] by {
                        let j = choose|j: int|
                            0 <= j < self.entries@.len() && #[trigger] self.entries@[j].peer_id == p;
                        self.lemma_entry(j);
                        if j < n {
                            before.lemma_entry(j);
                        }
                    }
                    assert(self@ =~= reported(before@, *peer_id, now));
                }
            },
        }
    }

    /// Forgets the statistics of peers that are not among `members`.
    pub fn prune(&mut self, members: &Vec<WorkerDescriptor>)
        requires
            old(self).wf(),
        ensures
            final(self).wf(),
            final(self)@ == pruned(old(self)@, members@),
    {
        let active = peers_in(members);
        let ghost before = self@;
        let mut i: usize = 0;
        while i < self.entries.len()
            invariant
                i <= self.entries@.len(),
                active@ == peers_of(members@),
                self.wf(),
                pruned(self@, members@) == pruned(before, members@),
                forall|j: int|
                    0 <= j < i ==> active@.contains(#[trigger] self.entries@[j].peer_id),
            decreases self.entries@.len() - i,
        {
            if contains_peer(&active, self.entries[i].peer_id) {
                i = i + 1;
            } else {
                let ghost full = *self;
                let _ = self.entries.remove(i);
                proof {
                    full.lemma_remove(*self, i as int);
                    assert(pruned(self@, members@) =~= pruned(full@, members@));
                }
            }
        }
        proof {
            assert forall|p: PeerId| self@.dom().contains(p) implies pruned(
                self@,
                members@,
            ).dom().contains(p) by {
                let j = choose|j: int|
                    0 <= j < self.entries@.len() && #[trigger] self.entries@[j].peer_id == p;
                assert(active@.contains(self.entries@[j].peer_id));
            }
            assert(self@ =~= pruned(self@, members@));
        }
    }

    /// Removing the `i`-th entry removes its peer from the table, and nothing else.
    proof fn lemma_remove(self, after: StatisticsTable<T>, i: int)
        requires
            self.wf(),
            0 <= i < self.entries@.len(),
            after.entries@ == self.entries@.remove(i),
        ensures
            after.wf(),
            after@ == self@.remove(self.entries@[i].peer_id),
    {
        let peer = self.entries@[i].peer_id;
        assert(after.wf()) by {
            assert forall|a: int, b: int| 0 <= a < b < after.entries@.len() implies #[trigger]
                after.entries@[a].peer_id != #[trigger] after.entries@[b].peer_id by {
                let a0 = if a < i { a } else { a + 1 };
                let b0 = if b < i { b } else { b + 1 };
                assert(self.entries@[a0].peer_id != self.entries@[b0].peer_id);
            }
        }
        assert forall|p: PeerId| after@.dom().contains(p) <==> self@.remove(peer).dom().contains(
            p,
        ) by {
            if has_entry(after.entries@, p) {
                let j = choose|j: int|
                    0 <= j < after.entries@.len() && #[trigger] after.entries@[j].peer_id == p;
                let j0 = if j < i { j } else { j + 1 };
                assert(self.entries@[j0].peer_id == p);
            }
            if has_entry(self.entries@, p) && p != peer {
                let j0 = choose|j: int|
                    0 <= j < self.entries@.len() && #[trigger] self.entries@[j].peer_id == p;
                let j = if j0 < i { j0 } else { j0 - 1 };
                assert(after.entries@[j].peer_id == p);
            }
        }
        assert forall|p: PeerId| after@.dom().contains(p) implies after@[p] == self@[p] by {
            let j = choose|j: int|
                0 <= j < after.entries@.len() && #[trigger] after.entries@[j].peer_id == p;
            after.lemma_entry(j);
            self.lemma_entry(if j < i { j } else { j + 1 });
        }
        assert(after@ =~= self@.remove(peer));
    }

    /// Returns `members` decorated with their latest statistic (if any), after pruning stale
    /// statistics.
    pub fn statistics(&mut self, members: &Vec<WorkerDescriptor>) -> (list: Vec<
        WorkerDescriptorWithStats,
    >)
        requires
            old(self).wf(),
        ensures
            final(self).wf(),
            final(self)@ == pruned(old(self)@, members@),
            list@ == members@.map_values(|w: WorkerDescriptor| enriched(old(self)@, w)),
    {
        let ghost before = self@;
        self.prune(members);
        let mut list: Vec<WorkerDescriptorWithStats> = Vec::new();
        for k in 0..members.len()
            invariant
                self.wf(),
                self@ == pruned(before, members@),
                list@ == members@.take(k as int).map_values(
                    |w: WorkerDescriptor| enriched(before, w),
                ),
        {
            let worker = members[k];
            let (last_updated, statistic) = match self.find(worker.peer_id) {
                Some(i) => {
                    proof {
                        self.lemma_entry(i as int);
                    }
                    (Some(self.entries[i].last_updated), Some(self.entries[i].statistic.value()))
                },
                None => (None, None),
            };
            proof {
                assert(peers_of(members@)[k as int] == worker.peer_id);
                assert(peers_of(members@).contains(worker.peer_id));
                assert(self@.dom().contains(worker.peer_id) == before.dom().contains(
                    worker.peer_id,
                ));
                assert(self@.dom().contains(worker.peer_id) == has_entry(
                    self.entries@,
                    worker.peer_id,
                ));
                assert(members@.take(k + 1) =~= members@.take(k as int).push(worker));
            }
            list.push(WorkerDescriptorWithStats::new(&worker, last_updated, statistic));
            assert(list@ =~= members@.take(k + 1).map_values(
                |w: WorkerDescriptor| enriched(before, w),
            ));
        }
        assert(members@.take(members@.len() as int) =~= members@);
        list
    }
}

pub(crate) fn contains_peer(peers: &Vec<PeerId>, peer: PeerId) -> (found: bool)
    ensures
        found == peers@.contains(peer),
{
    for i in 0..peers.len()
        invariant
            forall|j: int| 0 <= j < i ==> peers@[j] != peer,
    {
        if peers[i] == peer {
            return true;
        }
    }
    false
}

/// Shared statistics of all measured pools. A handle names one of the tables and is asked together
/// with this state, so all handles on a table report to it and read from it.
pub struct Measurements<T> {
    tables: Vec<StatisticsTable<T>>,
}

impl<T> View for Measurements<T> {
    type V = Seq<Map<PeerId, (LastUpdated, T)>>;

    /// The statistics of each measured pool.
    closed spec fn view(&self) -> Seq<Map<PeerId, (LastUpdated, T)>> {
        self.tables@.map_values(|table: StatisticsTable<T>| table@)
    }
}

impl<T: RuntimeStatistic> Measurements<T> {
    /// No peer has two entries in a table.
    pub closed spec fn wf(self) -> bool {
        forall|i: int| 0 <= i < self.tables@.len() ==> (#[trigger] self.tables@[i]).wf()
    }

    /// No tables yet.
    pub fn new() -> (measurements: Measurements<T>)
        ensures
            measurements.wf(),
            measurements@ == Seq::<Map<PeerId, (LastUpdated, T)>>::empty(),
    {
        let measurements = Measurements { tables: Vec::new() };
        assert(measurements@ =~= Seq::<Map<PeerId, (LastUpdated, T)>>::empty());
        measurements
    }

    /// Adds an empty table.
    fn add(&mut self) -> (table: usize)
        requires
            old(self).wf(),
        ensures
            final(self).wf(),
            table == old(self)@.len(),
            final(self)@ == old(self)@.push(Map::empty()),
    {
        let table: usize = self.tables.len();
        self.tables.push(StatisticsTable::new());
        assert(self@ =~= old(self)@.push(Map::empty()));
        table
    }

    fn update(&mut self, table: usize, peer_id: &PeerId, now: u64)
        requires
            old(self).wf(),
            table < old(self)@.len(),
        ensures
            final(self).wf(),
            final(self)@ == old(self)@.update(
                table as int,
                reported(old(self)@[table as int], *peer_id, now),
            ),
    {
        assert(self.tables@[table as int].wf());
        self.tables[table].update(peer_id, now);
        assert(self@ =~= old(self)@.update(
            table as int,
            reported(old(self)@[table as int], *peer_id, now),
        ));
    }

    fn statistics(&mut self, table: usize, members: &Vec<WorkerDescriptor>) -> (list: Vec<
        WorkerDescriptorWithStats,
    >)
        requires
            old(self).wf(),
            table < old(self)@.len(),
        ensures
            final(self).wf(),
            final(self)@ == old(self)@.update(
                table as int,
                pruned(old(self)@[table as int], members@),
            ),
            list@ == members@.map_values(
                |w: WorkerDescriptor| enriched(old(self)@[table as int], w),
            ),
    {
        assert(self.tables@[table as int].wf());
        let list = self.tables[table].statistics(members);
        assert(self@ =~= old(self)@.update(
            table as int,
            pruned(old(self)@[table as int], members@),
        ));
        list
    }
}

/// A pool together with the statistics of its members.
pub struct PoolWithStatistics<T> {
    pool: Pool,
    table: usize,
    marker: PhantomData<T>,
}

impl<T: RuntimeStatistic> PoolWithStatistics<T> {
    /// The pool itself.
    pub closed spec fn inner(self) -> Pool {
        self.pool
    }

    /// The number of the table.
    pub closed spec fn table_id(self) -> nat {
        self.table as nat
    }

    pub fn new(pool: Pool, measurements: &mut Measurements<T>) -> (measured: PoolWithStatistics<T>)
        requires
            old(measurements).wf(),
        ensures
            final(measurements).wf(),
            final(measurements)@ == old(measurements)@.push(Map::empty()),
            measured.inner() == pool,
            measured.table_id() == old(measurements)@.len(),
    {
        let table: usize = measurements.add();
        PoolWithStatistics { pool, table, marker: PhantomData }
    }

    /// The pool, to drive it.
    pub fn pool(&mut self) -> (pool: &mut Pool)
        ensures
            *pool == old(self).inner(),
            final(self).inner() == *final(pool),
            final(self).table_id() == old(self).table_id(),
    {
        &mut self.pool
    }

    /// Returns a cloneable handle that exposes statistics and membership without owning the pool.
    pub fn handle(&self) -> (handle: PoolStatisticsHandle<T>)
        ensures
            handle.id() == self.inner().id(),
            handle.table_id() == self.table_id(),
    {
        PoolStatisticsHandle { pool: self.pool.handle(), table: self.table, marker: PhantomData }
    }

    /// Returns current members decorated with their latest statistic (if any),
    /// after pruning stale statistics.
    pub fn statistics(&self, shared: &Memberships, measurements: &mut Measurements<T>) -> (list: Vec<
        WorkerDescriptorWithStats,
    >)
        requires
            old(measurements).wf(),
            self.table_id() < old(measurements)@.len(),
        ensures
            final(measurements).wf(),
            final(measurements)@ == old(measurements)@.update(
                self.table_id() as int,
                pruned(
                    old(measurements)@[self.table_id() as int],
                    shared.of(self.inner().id()),
                ),
            ),
            list@ == shared.of(self.inner().id()).map_values(
                |w: WorkerDescriptor| enriched(old(measurements)@[self.table_id() as int], w),
            ),
    {
        let members = self.pool.members().load(shared);
        measurements.statistics(self.table, &members)
    }

    /// Update statistics for a worker with the given timestamp.
    pub fn update(&self, measurements: &mut Measurements<T>, peer_id: &PeerId, now: u64)
        requires
            old(measurements).wf(),
            self.table_id() < old(measurements)@.len(),
        ensures
            final(measurements).wf(),
            final(measurements)@ == old(measurements)@.update(
                self.table_id() as int,
                reported(old(measurements)@[self.table_id() as int], *peer_id, now),
            ),
    {
        measurements.update(self.table, peer_id, now);
    }
}

/// Cloneable handle for statistics and membership without owning the pool.
pub struct PoolStatisticsHandle<T> {
    pool: PoolHandle,
    table: usize,
    marker: PhantomData<T>,
}

impl<T> Clone for PoolStatisticsHandle<T> {
    fn clone(&self) -> (copy: PoolStatisticsHandle<T>)
        ensures
            copy == *self,
    {
        PoolStatisticsHandle { pool: self.pool, table: self.table, marker: PhantomData }
    }
}

impl<T> PoolStatisticsHandle<T> {
    /// The number of the pool.
    pub closed spec fn id(self) -> nat {
        self.pool.id()
    }

    /// The number of the table.
    pub closed spec fn table_id(self) -> nat {
        self.table as nat
    }
}

impl<T: RuntimeStatistic> PoolStatisticsHandle<T> {
    /// Returns current members decorated with their latest statistic (if any),
    /// after pruning stale statistics.
    pub fn statistics(&self, shared: &Memberships, measurements: &mut Measurements<T>) -> (list: Vec<
        WorkerDescriptorWithStats,
    >)
        requires
            old(measurements).wf(),
            self.table_id() < old(measurements)@.len(),
        ensures
            final(measurements).wf(),
            final(measurements)@ == old(measurements)@.update(
                self.table_id() as int,
                pruned(old(measurements)@[self.table_id() as int], shared.of(self.id())),
            ),
            list@ == shared.of(self.id()).map_values(
                |w: WorkerDescriptor| enriched(old(measurements)@[self.table_id() as int], w),
            ),
    {
        let members = self.pool.members().load(shared);
        measurements.statistics(self.table, &members)
    }

    /// Update statistics for a worker with the given timestamp.
    pub fn update(&self, measurements: &mut Measurements<T>, peer_id: &PeerId, now: u64)
        requires
            old(measurements).wf(),
            self.table_id() < old(measurements)@.len(),
        ensures
            final(measurements).wf(),
            final(measurements)@ == old(measurements)@.update(
                self.table_id() as int,
                reported(old(measurements)@[self.table_id() as int], *peer_id, now),
            ),
    {
        measurements.update(self.table, peer_id, now);
    }

    pub fn members(&self) -> (members: PoolMembers)
        ensures
            members.id() == self.id(),
    {
        self.pool.members()
    }
}

/// All handles on a table share it: what changes it through one shows through every other, and
/// through no handle on another table.
pub proof fn law_handles_share_their_table<T: RuntimeStatistic>(
    before: Measurements<T>,
    after: Measurements<T>,
    handle: PoolStatisticsHandle<T>,
    other: PoolStatisticsHandle<T>,
    table: Map<PeerId, (LastUpdated, T)>,
)
    requires
        handle.table_id() < before@.len(),
        other.table_id() < before@.len(),
        after@ == before@.update(handle.table_id() as int, table),
    ensures
        other.table_id() == handle.table_id() ==> after@[other.table_id() as int] == table,
        other.table_id() != handle.table_id() ==> after@[other.table_id() as int]
            == before@[other.table_id() as int],
{
}

/// Pruning leaves a statistic to exactly those members that reported, and pruning again changes
/// nothing.
pub proof fn law_pruning_keeps_the_members<T>(
    table: Map<PeerId, (LastUpdated, T)>,
    workers: Seq<WorkerDescriptor>,
    peer: PeerId,
)
    ensures
        pruned(table, workers).dom().contains(peer) <==> table.dom().contains(peer) && exists|
            i: int,
        |
            0 <= i < workers.len() && (#[trigger] workers[i]).peer_id == peer,
        pruned(table, workers).dom().contains(peer) ==> pruned(table, workers)[peer]
            == table[peer],
        pruned(pruned(table, workers), workers) == pruned(table, workers),
{
    assert(pruned(pruned(table, workers), workers) =~= pruned(table, workers));
    let peers = peers_of(workers);
    if peers.contains(peer) {
        let i = peers.index_of(peer);
        assert(workers[i].peer_id == peer);
    }
    if exists|i: int| 0 <= i < workers.len() && (#[trigger] workers[i]).peer_id == peer {
        let i = choose|i: int| 0 <= i < workers.len() && (#[trigger] workers[i]).peer_id == peer;
        assert(peers[i] == peer);
    }
}

/// A report of one worker leaves the statistics of every other as they were.
pub proof fn law_reports_are_separate<T: RuntimeStatistic>(
    table: Map<PeerId, (LastUpdated, T)>,
    peer: PeerId,
    now: u64,
    other: PeerId,
)
    requires
        other != peer,
    ensures
        reported(table, peer, now).dom().contains(other) == table.dom().contains(other),
        table.dom().contains(other) ==> reported(table, peer, now)[other] == table[other],
{
}

/// The table after reports of `peer` at the given times.
pub open spec fn after_reports<T: RuntimeStatistic>(
    table: Map<PeerId, (LastUpdated, T)>,
    peer: PeerId,
    times: Seq<u64>,
) -> Map<PeerId, (LastUpdated, T)>
    decreases times.len(),
{
    if times.len() == 0 {
        table
    } else {
        reported(after_reports(table, peer, times.drop_last()), peer, times.last())
    }
}

/// The time that passed between each two reports in a row, zero where the clock went back.
pub open spec fn intervals(times: Seq<u64>) -> Seq<u64> {
    Seq::new(
        (times.len() - 1) as nat,
        |i: int|
            if times[i + 1] >= times[i] {
                (times[i + 1] - times[i]) as u64
            } else {
                0u64
            },
    )
}

/// The statistic of a worker is that of the times between its reports, and its last report is
/// remembered.
pub proof fn law_statistic_measures_the_intervals<T: RuntimeStatistic>(
    table: Map<PeerId, (LastUpdated, T)>,
    peer: PeerId,
    times: Seq<u64>,
)
    requires
        !table.dom().contains(peer),
        times.len() > 0,
    ensures
        after_reports(table, peer, times).dom().contains(peer),
        after_reports(table, peer, times)[peer] == (times.last(), replay::<T>(intervals(times))),
    decreases times.len(),
{
    let before = times.drop_last();
    if times.len() == 1 {
        assert(intervals(times) =~= Seq::<u64>::empty());
        assert(after_reports(table, peer, before) == table);
    } else {
        law_statistic_measures_the_intervals(table, peer, before);
        assert(intervals(times).drop_last() =~= intervals(before));
    }
}

/// A worker is listed as what it is, with its peer and its resources. If it reported, its last
/// report and the reading of its statistic are listed with it, else neither is.
pub proof fn law_workers_are_listed_with_their_statistic<T: RuntimeStatistic>(
    table: Map<PeerId, (LastUpdated, T)>,
    worker: WorkerDescriptor,
)
    ensures
        enriched(table, worker).peer_id == worker.peer_id,
        enriched(table, worker).resources == worker.resources,
        !table.dom().contains(worker.peer_id) ==> {
            &&& enriched(table, worker).last_updated is None
            &&& enriched(table, worker).statistic is None
        },
        table.dom().contains(worker.peer_id) ==> {
            &&& enriched(table, worker).last_updated == Some(table[worker.peer_id].0)
            &&& enriched(table, worker).statistic == Some(table[worker.peer_id].1.reading())
        },
{
}

/// What is listed of a worker with a running mean is the mean time between its reports, rounded
/// down, and zero after a single report; pruning the table for a pool that it is a member of does
/// not change that.
pub proof fn law_listed_mean_is_that_of_the_intervals(
    table: Map<PeerId, (LastUpdated, RunningMean)>,
    members: Seq<WorkerDescriptor>,
    i: int,
    times: Seq<u64>,
)
    requires
        0 <= i < members.len(),
        !table.dom().contains(members[i].peer_id),
        0 < times.len() <= u64::MAX,
    ensures
        ({
            let worker = members[i];
            let reports = after_reports(table, worker.peer_id, times);
            let listed = enriched(pruned(reports, members), worker);
            &&& listed.peer_id == worker.peer_id
            &&& listed.resources == worker.resources
            &&& listed.last_updated == Some(times.last())
            &&& listed.statistic is Some
            &&& times.len() == 1 ==> listed.statistic == Some(0u64)
            &&& times.len() > 1 ==> listed.statistic->0 == sum(
                Seq::new(
                    (times.len() - 1) as nat,
                    |j: int|
                        if times[j + 1] >= times[j] {
                            (times[j + 1] - times[j]) as u64
                        } else {
                            0u64
                        },
                ),
            ) / (times.len() - 1)
        }),
{
    let worker = members[i];
    let reports = after_reports(table, worker.peer_id, times);
    law_statistic_measures_the_intervals(table, worker.peer_id, times);
    assert(peers_of(members)[i] == worker.peer_id);
    assert(pruned(reports, members).dom().contains(worker.peer_id));
    if times.len() > 1 {
        law_running_mean_is_the_mean(intervals(times));
    } else {
        assert(intervals(times) =~= Seq::<u64>::empty());
        law_no_samples_read_zero();
    }
}

/// A report feeds the statistic of its worker and touches no other. The first starts it, each
/// further one adds the time since the one before, or nothing where the clock went back.
pub proof fn law_reports_feed_their_statistic<T: RuntimeStatistic>(
    handle: &PoolStatisticsHandle<T>,
    measurements: &mut Measurements<T>,
    peer: &PeerId,
    now: u64,
    other: PeerId,
    another: int,
)
    requires
        handle.table_id() < old(measurements)@.len(),
        call_ensures(PoolStatisticsHandle::<T>::update, (handle, measurements, peer, now), ()),
        other != *peer,
        another != handle.table_id(),
        0 <= another < old(measurements)@.len(),
    ensures
        ({
            let before = old(measurements)@[handle.table_id() as int];
            let after = final(measurements)@[handle.table_id() as int];
            &&& after.dom().contains(*peer)
            &&& after[*peer].0 == now
            &&& !before.dom().contains(*peer) ==> after[*peer].1 == T::fresh()
            &&& before.dom().contains(*peer) && before[*peer].0 <= now ==> after[*peer].1
                == before[*peer].1.after((now - before[*peer].0) as u64)
            &&& before.dom().contains(*peer) && before[*peer].0 > now ==> after[*peer].1
                == before[*peer].1.after(0)
            &&& after.dom().contains(other) == before.dom().contains(other)
            &&& after.dom().contains(other) ==> after[other] == before[other]
        }),
        final(measurements)@.len() == old(measurements)@.len(),
        final(measurements)@[another] == old(measurements)@[another],
{
}

/// The members of a pool are listed one by one, in order, each with its last report and the
/// reading of its statistic if it reported. Whoever is no member is forgotten; members keep their
/// statistics.
pub proof fn law_members_are_listed_with_their_statistics<T: RuntimeStatistic>(
    handle: &PoolStatisticsHandle<T>,
    shared: &Memberships,
    measurements: &mut Measurements<T>,
    list: Vec<WorkerDescriptorWithStats>,
    i: int,
    peer: PeerId,
)
    requires
        handle.table_id() < old(measurements)@.len(),
        call_ensures(PoolStatisticsHandle::<T>::statistics, (handle, shared, measurements), list),
    ensures
        list@.len() == shared.of(handle.id()).len(),
        0 <= i < list@.len() ==> {
            let member = shared.of(handle.id())[i];
            let table = old(measurements)@[handle.table_id() as int];
            &&& list@[i].peer_id == member.peer_id
            &&& list@[i].resources == member.resources
            &&& list@[i].last_updated is Some <==> table.dom().contains(member.peer_id)
            &&& list@[i].statistic is Some <==> table.dom().contains(member.peer_id)
            &&& table.dom().contains(member.peer_id) ==> list@[i].last_updated == Some(
                table[member.peer_id].0,
            ) && list@[i].statistic == Some(table[member.peer_id].1.reading())
        },
        ({
            let before = old(measurements)@[handle.table_id() as int];
            let after = final(measurements)@[handle.table_id() as int];
            &&& after.dom().contains(peer) <==> before.dom().contains(peer) && exists|j: int|
                0 <= j < shared.of(handle.id()).len() && (
                #[trigger] shared.of(handle.id())[j]).peer_id == peer
            &&& after.dom().contains(peer) ==> after[peer] == before[peer]
        }),
{
    let before = old(measurements)@[handle.table_id() as int];
    law_pruning_keeps_the_members(before, shared.of(handle.id()), peer);
}

/// A measured pool and its handles name the same pool and the same table, which is a new one, and
/// do the same.
pub proof fn law_measured_pools_agree_with_their_handles<T: RuntimeStatistic>(
    pool: Pool,
    measurements: &mut Measurements<T>,
    measured: PoolWithStatistics<T>,
    handle: PoolStatisticsHandle<T>,
    members: PoolMembers,
    shared: &Memberships,
    read: &mut Measurements<T>,
    list: Vec<WorkerDescriptorWithStats>,
    told: &mut Measurements<T>,
    peer: &PeerId,
    now: u64,
)
    requires
        call_ensures(PoolWithStatistics::<T>::new, (pool, measurements), measured),
        call_ensures(PoolWithStatistics::<T>::handle, (&measured,), handle),
        call_ensures(PoolStatisticsHandle::<T>::members, (&handle,), members),
        call_ensures(PoolWithStatistics::<T>::statistics, (&measured, shared, read), list),
        call_ensures(PoolWithStatistics::<T>::update, (&measured, told, peer, now), ()),
    ensures
        measured.inner() == pool,
        handle.id() == pool.id(),
        members.id() == pool.id(),
        handle.table_id() == old(measurements)@.len(),
        final(measurements)@ == old(measurements)@.push(Map::empty()),
        list@ == shared.of(pool.id()).map_values(
            |w: WorkerDescriptor| enriched(old(read)@[handle.table_id() as int], w),
        ),
        final(read)@ == old(read)@.update(
            handle.table_id() as int,
            pruned(old(read)@[handle.table_id() as int], shared.of(pool.id())),
        ),
        final(told)@ == old(told)@.update(
            handle.table_id() as int,
            reported(old(told)@[handle.table_id() as int], *peer, now),
        ),
{
}

} // verus!
