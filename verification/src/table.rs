//! The per-process memory table: an association from process id to memory
//! reading that remembers the order in which ids were first seen.

use crate::memory::MemoryReading;
use vstd::prelude::*;

verus! {

/// One line of a driver's process list.
#[derive(Clone, Copy, Debug, PartialEq, Eq, Structural)]
pub struct ProcessSample {
    pub pid: u32,
    pub used: MemoryReading,
}

/// The reading of the first entry for `pid`, if there is one.
pub open spec fn first_reading(entries: Seq<ProcessSample>, pid: u32) -> Option<MemoryReading>
    decreases entries.len(),
{
    if entries.len() == 0 {
        None
    } else {
        match first_reading(entries.drop_last(), pid) {
            Some(reading) => Some(reading),
            None => if entries.last().pid == pid {
                Some(entries.last().used)
            } else {
                None
            },
        }
    }
}

/// No process id occurs in two entries.
pub open spec fn distinct_pids(entries: Seq<ProcessSample>) -> bool {
    forall|i: int, j: int|
        0 <= i < j < entries.len() ==> (#[trigger] entries[i]).pid != (#[trigger] entries[j]).pid
}

/// The process ids of the entries, in order.
pub open spec fn pids_of(entries: Seq<ProcessSample>) -> Seq<u32> {
    Seq::new(entries.len(), |i: int| entries[i].pid)
}

/// Insertion: an unknown process goes to the end, a known one is left as
/// it is, with the reading and the place it has.
pub open spec fn put_if_absent(entries: Seq<ProcessSample>, sample: ProcessSample) -> Seq<
    ProcessSample,
> {
    if first_reading(entries, sample.pid) is Some {
        entries
    } else {
        entries.push(sample)
    }
}

/// `put_if_absent` applied to each sample in turn.
pub open spec fn put_all_if_absent(
    entries: Seq<ProcessSample>,
    samples: Seq<ProcessSample>,
) -> Seq<ProcessSample>
    decreases samples.len(),
{
    if samples.len() == 0 {
        entries
    } else {
        put_if_absent(put_all_if_absent(entries, samples.drop_last()), samples.last())
    }
}

/// The table for one poll: the compute samples are inserted in turn, then
/// the graphics samples, each only if its process is not yet known. The
/// reading that is seen first for a process is the one that stays.
pub open spec fn merged(compute: Seq<ProcessSample>, graphics: Seq<ProcessSample>) -> Seq<
    ProcessSample,
> {
    put_all_if_absent(put_all_if_absent(Seq::empty(), compute), graphics)
}

/// The ids of `pids` in order of first appearance, each once.
pub open spec fn first_occurrences(pids: Seq<u32>) -> Seq<u32>
    decreases pids.len(),
{
    if pids.len() == 0 {
        Seq::empty()
    } else {
        let earlier = first_occurrences(pids.drop_last());
        if earlier.contains(pids.last()) {
            earlier
        } else {
            earlier.push(pids.last())
        }
    }
}

/// An entry for `pid` at `at` with none before it is the one that
/// `first_reading` finds.
pub proof fn lemma_first_reading_at(entries: Seq<ProcessSample>, pid: u32, at: int)
    requires
        0 <= at < entries.len(),
        entries[at].pid == pid,
        forall|j: int| 0 <= j < at ==> (#[trigger] entries[j]).pid != pid,
    ensures
        first_reading(entries, pid) == Some(entries[at].used),
    decreases entries.len(),
{
    if at < entries.len() - 1 {
        lemma_first_reading_at(entries.drop_last(), pid, at);
    } else {
        lemma_first_reading_none(entries.drop_last(), pid);
    }
}

/// `first_reading` finds nothing exactly when no entry is for `pid`.
pub proof fn lemma_first_reading_none(entries: Seq<ProcessSample>, pid: u32)
    ensures
        first_reading(entries, pid) is None <==> forall|j: int|
            0 <= j < entries.len() ==> (#[trigger] entries[j]).pid != pid,
    decreases entries.len(),
{
    if entries.len() > 0 {
        let shorter = entries.drop_last();
        lemma_first_reading_none(shorter, pid);
        if first_reading(entries, pid) is None {
            assert forall|j: int| 0 <= j < entries.len() implies (#[trigger] entries[j]).pid
                != pid by {
                if j < shorter.len() {
                    assert(shorter[j].pid != pid);
                }
            }
        } else if first_reading(shorter, pid) is Some {
            let j = choose|j: int| 0 <= j < shorter.len() && (#[trigger] shorter[j]).pid == pid;
            assert(entries[j].pid == pid);
        } else {
            assert(entries.last().pid == pid);
        }
    }
}

/// A process is known to the table exactly when its id is among the
/// table's ids.
pub proof fn lemma_known_pids(entries: Seq<ProcessSample>, pid: u32)
    ensures
        first_reading(entries, pid) is Some <==> pids_of(entries).contains(pid),
{
    lemma_first_reading_none(entries, pid);
    let pids = pids_of(entries);
    if pids.contains(pid) {
        let i = choose|i: int| 0 <= i < pids.len() && pids[i] == pid;
        assert(entries[i].pid == pid);
    } else if first_reading(entries, pid) is Some {
        let j = choose|j: int| 0 <= j < entries.len() && (#[trigger] entries[j]).pid == pid;
        assert(pids[j] == pid);
    }
}

/// Appending a sample for an unknown process: the mapping gains that
/// process, the ids stay distinct.
pub proof fn lemma_push_unknown(entries: Seq<ProcessSample>, sample: ProcessSample, pid: u32)
    requires
        distinct_pids(entries),
        first_reading(entries, sample.pid) is None,
    ensures
        distinct_pids(entries.push(sample)),
        first_reading(entries.push(sample), pid) == if pid == sample.pid {
            Some(sample.used)
        } else {
            first_reading(entries, pid)
        },
        pids_of(entries.push(sample)) == pids_of(entries).push(sample.pid),
        !pids_of(entries).contains(sample.pid),
{
    let after = entries.push(sample);
    lemma_known_pids(entries, sample.pid);
    lemma_first_reading_none(entries, sample.pid);
    assert(after.drop_last() =~= entries);
    assert forall|i: int, j: int| 0 <= i < j < after.len() implies
        (#[trigger] after[i]).pid != (#[trigger] after[j]).pid by {
        if j == entries.len() {
            assert(entries[i].pid != sample.pid);
        } else {
            assert(entries[i].pid != entries[j].pid);
        }
    }
}

/// What `put_if_absent` does to the table as a mapping and to its ids, and
/// that it keeps the ids distinct: what the table held stays, and only an
/// unknown process is added.
pub proof fn lemma_put_if_absent(entries: Seq<ProcessSample>, sample: ProcessSample, pid: u32)
    requires
        distinct_pids(entries),
    ensures
        distinct_pids(put_if_absent(entries, sample)),
        first_reading(put_if_absent(entries, sample), pid) == match first_reading(entries, pid) {
            Some(reading) => Some(reading),
            None => if pid == sample.pid {
                Some(sample.used)
            } else {
                None
            },
        },
        pids_of(put_if_absent(entries, sample)) == if pids_of(entries).contains(sample.pid) {
            pids_of(entries)
        } else {
            pids_of(entries).push(sample.pid)
        },
{
    lemma_known_pids(entries, sample.pid);
    if first_reading(entries, sample.pid) is None {
        lemma_push_unknown(entries, sample, pid);
    }
}

/// On ids that are already in order of first appearance, `put_all_if_absent`
/// yields the mapping in which the table itself comes first and of the
/// samples for one process the first, distinct ids, and the ids in order of
/// first appearance.
pub proof fn lemma_put_all_if_absent(
    entries: Seq<ProcessSample>,
    samples: Seq<ProcessSample>,
    seen: Seq<u32>,
    pid: u32,
)
    requires
        distinct_pids(entries),
        pids_of(entries) == first_occurrences(seen),
    ensures
        distinct_pids(put_all_if_absent(entries, samples)),
        first_reading(put_all_if_absent(entries, samples), pid) == match first_reading(
            entries,
            pid,
        ) {
            Some(reading) => Some(reading),
            None => first_reading(samples, pid),
        },
        pids_of(put_all_if_absent(entries, samples)) == first_occurrences(seen + pids_of(samples)),
    decreases samples.len(),
{
    if samples.len() == 0 {
        assert(seen + pids_of(samples) =~= seen);
    } else {
        let shorter = samples.drop_last();
        lemma_put_all_if_absent(entries, shorter, seen, pid);
        lemma_put_if_absent(put_all_if_absent(entries, shorter), samples.last(), pid);
        assert((seen + pids_of(samples)).drop_last() =~= seen + pids_of(shorter));
    }
}

/// Inserting two lists one after the other is inserting the one list that
/// holds both.
pub proof fn lemma_put_all_if_absent_joined(
    entries: Seq<ProcessSample>,
    first: Seq<ProcessSample>,
    second: Seq<ProcessSample>,
)
    ensures
        put_all_if_absent(put_all_if_absent(entries, first), second) == put_all_if_absent(
            entries,
            first + second,
        ),
    decreases second.len(),
{
    if second.len() == 0 {
        assert(first + second =~= first);
    } else {
        lemma_put_all_if_absent_joined(entries, first, second.drop_last());
        assert((first + second).drop_last() =~= first + second.drop_last());
    }
}

/// The merged table, stated without reference to how it is built. No id
/// occurs twice. A process that the compute list names has the reading of
/// its first compute sample, whatever the graphics list says; any other
/// process has the reading of its first graphics sample; a process in
/// neither list is absent. The ids stand in the order in which they first
/// appear in the compute list followed by the graphics list. In short, the
/// table is what first-seen-wins insertion makes of the compute list with
/// the graphics list behind it.
pub proof fn lemma_merged(compute: Seq<ProcessSample>, graphics: Seq<ProcessSample>, pid: u32)
    ensures
        distinct_pids(merged(compute, graphics)),
        first_reading(merged(compute, graphics), pid) == match first_reading(compute, pid) {
            Some(reading) => Some(reading),
            None => first_reading(graphics, pid),
        },
        pids_of(merged(compute, graphics)) == first_occurrences(
            pids_of(compute) + pids_of(graphics),
        ),
        merged(compute, graphics) == put_all_if_absent(Seq::empty(), compute + graphics),
{
    let none = Seq::<ProcessSample>::empty();
    let unseen = Seq::<u32>::empty();
    assert(pids_of(none) =~= first_occurrences(unseen));
    lemma_put_all_if_absent(none, compute, unseen, pid);
    lemma_put_all_if_absent(put_all_if_absent(none, compute), graphics, pids_of(compute), pid);
    lemma_put_all_if_absent_joined(none, compute, graphics);
}

/// Where both lists name a process, the compute reading wins: the table
/// holds for that process the reading of its first compute sample, whatever
/// the graphics list says.
pub proof fn lemma_compute_reading_wins(
    compute: Seq<ProcessSample>,
    graphics: Seq<ProcessSample>,
    in_compute: int,
    in_graphics: int,
)
    requires
        0 <= in_compute < compute.len(),
        0 <= in_graphics < graphics.len(),
        compute[in_compute].pid == graphics[in_graphics].pid,
    ensures
        first_reading(compute, compute[in_compute].pid) is Some,
        first_reading(merged(compute, graphics), compute[in_compute].pid) == first_reading(
            compute,
            compute[in_compute].pid,
        ),
        (forall|k: int|
            0 <= k < in_compute ==> (#[trigger] compute[k]).pid != compute[in_compute].pid)
            ==> first_reading(merged(compute, graphics), compute[in_compute].pid) == Some(
            compute[in_compute].used,
        ),
{
    let pid = compute[in_compute].pid;
    lemma_merged(compute, graphics, pid);
    lemma_first_reading_none(compute, pid);
    if forall|k: int| 0 <= k < in_compute ==> (#[trigger] compute[k]).pid != pid {
        lemma_first_reading_at(compute, pid, in_compute);
    }
}

/// The ordered association from process id to memory reading that one poll
/// builds. Each id occurs once; entries stand in the order in which their
/// ids were first inserted.
pub struct ProcessMemoryTable {
    entries: Vec<ProcessSample>,
}

impl View for ProcessMemoryTable {
    type V = Seq<ProcessSample>;

    closed spec fn view(&self) -> Seq<ProcessSample> {
        self.entries@
    }
}

impl ProcessMemoryTable {
    #[verifier::type_invariant]
    spec fn ids_are_distinct(&self) -> bool {
        distinct_pids(self.entries@)
    }

    /// The empty table.
    pub fn new() -> (table: Self)
        ensures
            table@ == Seq::<ProcessSample>::empty(),
    {
        ProcessMemoryTable { entries: Vec::new() }
    }

    /// Number of processes in the table.
    pub fn len(&self) -> (count: usize)
        ensures
            count == self@.len(),
    {
        self.entries.len()
    }

    /// Whether the table holds no process.
    pub fn is_empty(&self) -> (empty: bool)
        ensures
            empty == (self@.len() == 0),
    {
        self.entries.len() == 0
    }

    /// The entry at `index` in insertion order, if there are that many.
    pub fn entry(&self, index: usize) -> (sample: Option<ProcessSample>)
        ensures
            sample == if index < self@.len() {
                Some(self@[index as int])
            } else {
                None::<ProcessSample>
            },
    {
        if index < self.entries.len() {
            Some(self.entries[index])
        } else {
            None
        }
    }

    /// Index of the entry for `pid`.
    fn position(&self, pid: u32) -> (found: Option<usize>)
        ensures
            match found {
                Some(at) => at < self@.len() && self@[at as int].pid == pid && first_reading(
                    self@,
                    pid,
                ) == Some(self@[at as int].used),
                None => first_reading(self@, pid) is None,
            },
    {
        let mut at: usize = 0;
        while at < self.entries.len()
            invariant
                at <= self.entries.len(),
                forall|j: int| 0 <= j < at ==> (#[trigger] self.entries@[j]).pid != pid,
            decreases self.entries.len() - at,
        {
            if self.entries[at].pid == pid {
                proof {
                    lemma_first_reading_at(self.entries@, pid, at as int);
                }
                return Some(at);
            }
            at += 1;
        }
        proof {
            lemma_first_reading_none(self.entries@, pid);
        }
        None
    }

    /// The reading held for `pid`, if the process is in the table.
    pub fn get(&self, pid: u32) -> (reading: Option<MemoryReading>)
        ensures
            reading == first_reading(self@, pid),
    {
        match self.position(pid) {
            Some(at) => Some(self.entries[at].used),
            None => None,
        }
    }

    /// Adds an entry for a process that the table does not hold yet.
    fn append(&mut self, sample: ProcessSample)
        requires
            first_reading(old(self)@, sample.pid) is None,
        ensures
            final(self)@ == old(self)@.push(sample),
    {
        proof {
            use_type_invariant(&*self);
            lemma_push_unknown(self.entries@, sample, sample.pid);
        }
        let mut entries = Vec::new();
        std::mem::swap(&mut entries, &mut self.entries);
        entries.push(sample);
        self.entries = entries;
    }

    /// Adds the sample at the end unless its process is already in the
    /// table; a known process keeps the reading and the place it has.
    pub fn insert_if_absent(&mut self, sample: ProcessSample)
        ensures
            final(self)@ == put_if_absent(old(self)@, sample),
            distinct_pids(final(self)@),
    {
        proof {
            use_type_invariant(&*self);
            lemma_put_if_absent(self.entries@, sample, sample.pid);
        }
        if self.position(sample.pid).is_none() {
            self.append(sample);
        }
    }
}

/// Builds the table for one poll from the two process lists of the driver:
/// the compute samples first, then the graphics samples, each added only if
/// its process is not yet in the table.
pub fn merge_processes(compute: &Vec<ProcessSample>, graphics: &Vec<ProcessSample>) -> (table:
    ProcessMemoryTable)
    ensures
        table@ == merged(compute@, graphics@),
        distinct_pids(table@),
{
    let mut table = ProcessMemoryTable::new();
    let mut i: usize = 0;
    while i < compute.len()
        invariant
            i <= compute.len(),
            table@ == put_all_if_absent(Seq::empty(), compute@.take(i as int)),
        decreases compute.len() - i,
    {
        assert(compute@.take(i + 1).drop_last() =~= compute@.take(i as int));
        table.insert_if_absent(compute[i]);
        i += 1;
    }
    assert(compute@.take(i as int) =~= compute@);
    let mut k: usize = 0;
    while k < graphics.len()
        invariant
            k <= graphics.len(),
            table@ == put_all_if_absent(
                put_all_if_absent(Seq::empty(), compute@),
                graphics@.take(k as int),
            ),
        decreases graphics.len() - k,
    {
        assert(graphics@.take(k + 1).drop_last() =~= graphics@.take(k as int));
        table.insert_if_absent(graphics[k]);
        k += 1;
    }
    assert(graphics@.take(k as int) =~= graphics@);
    proof {
        lemma_merged(compute@, graphics@, 0);
    }
    table
}

} // verus!
