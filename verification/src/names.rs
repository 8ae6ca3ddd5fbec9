//! Process names: the table of names known for process ids, whether written
//! down by hand or taken from the operating system's process list.

use crate::table::first_reading;
use crate::table::lemma_first_reading_none;
use crate::table::ProcessMemoryTable;
use crate::table::ProcessSample;
use sysinfo::Pid;
use sysinfo::System;
use vstd::prelude::*;

verus! {

/// The name shown for a process that no name is known for.
pub const UNKNOWN_NAME: &'static str = "unknown";

/// The name shown for `pid`: the one that `names` holds, or the fixed
/// fallback.
pub open spec fn resolved_name(names: Map<u32, Seq<char>>, pid: u32) -> Seq<char> {
    if names.contains_key(pid) {
        names[pid]
    } else {
        "unknown"@
    }
}

/// One recorded name.
#[derive(Debug)]
pub struct NameEntry {
    pub pid: u32,
    pub name: String,
}

/// The name that the last entry for `pid` records, if there is one.
pub open spec fn recorded_name(entries: Seq<NameEntry>, pid: u32) -> Option<Seq<char>>
    decreases entries.len(),
{
    if entries.len() == 0 {
        None
    } else if entries.last().pid == pid {
        Some(entries.last().name@)
    } else {
        recorded_name(entries.drop_last(), pid)
    }
}

/// A table of process names by process id.
pub struct NameTable {
    entries: Vec<NameEntry>,
}

impl View for NameTable {
    type V = Map<u32, Seq<char>>;

    closed spec fn view(&self) -> Map<u32, Seq<char>> {
        Map::new(
            |pid: u32| recorded_name(self.entries@, pid) is Some,
            |pid: u32| recorded_name(self.entries@, pid).unwrap(),
        )
    }
}

impl NameTable {
    /// The table that knows no process.
    pub fn new() -> (table: Self)
        ensures
            table@ == Map::<u32, Seq<char>>::empty(),
    {
        let table = NameTable { entries: Vec::new() };
        table
    }

    /// Records `name` for `pid`, in place of any name recorded before.
    pub fn record(&mut self, pid: u32, name: String)
        ensures
            final(self)@ == old(self)@.insert(pid, name@),
    {
        self.entries.push(NameEntry { pid, name });
        assert(self.entries@.drop_last() =~= old(self).entries@);
    }

    /// The name recorded for `pid`, if there is one.
    pub fn get(&self, pid: u32) -> (name: Option<String>)
        ensures
            match name {
                Some(text) => self@.contains_key(pid) && self@[pid] == text@,
                None => !self@.contains_key(pid),
            },
    {
        let mut below: usize = self.entries.len();
        assert(self.entries@.take(below as int) =~= self.entries@);
        while below > 0
            invariant
                below <= self.entries.len(),
                recorded_name(self.entries@, pid) == recorded_name(
                    self.entries@.take(below as int),
                    pid,
                ),
            decreases below,
        {
            assert(self.entries@.take(below as int).drop_last() =~= self.entries@.take(below - 1));
            if self.entries[below - 1].pid == pid {
                return Some(self.entries[below - 1].name.clone());
            }
            below -= 1;
        }
        None
    }

    /// The name to show for `pid`: the recorded one, or `"unknown"`.
    pub fn resolve(&self, pid: u32) -> (name: String)
        ensures
            name@ == resolved_name(self@, pid),
    {
        match self.get(pid) {
            Some(name) => name,
            None => String::from_str(UNKNOWN_NAME),
        }
    }
}

/// The names of the processes in a process list as the operating system
/// reported them, by process id. Bytes of a name that are not valid UTF-8
/// stand as U+FFFD.
pub uninterp spec fn process_names(system: System) -> Map<u32, Seq<char>>;

/// `sysinfo::System`, the process list as last refreshed. It is carried as
/// it is; what it holds is known through `process_names` alone.
#[verifier::external_type_specification]
#[verifier::external_body]
pub struct ExSystem(System);

/// `sysinfo::System::process`, with `sysinfo::Process::name` on what it
/// finds. The lookup reads the list that the last refresh left in `system`
/// and nothing else: it yields the name held for `pid`, or nothing when the
/// list has no such process.
#[verifier::external_body]
fn lookup_process_name(system: &System, pid: u32) -> (name: Option<String>)
    ensures
        name matches Some(text) ==> process_names(*system).contains_key(pid) && process_names(
            *system,
        )[pid] == text@,
        name is None ==> !process_names(*system).contains_key(pid),
{
    system.process(Pid::from_u32(pid)).map(|process| process.name().to_string_lossy().into_owned())
}

/// The name to show for `pid`: the one in the process list of `system`, or
/// `"unknown"` when the list has no such process.
pub fn get_process_name(system: &System, pid: u32) -> (name: String)
    ensures
        name@ == resolved_name(process_names(*system), pid),
{
    match lookup_process_name(system, pid) {
        Some(name) => name,
        None => String::from_str(UNKNOWN_NAME),
    }
}

/// The set of process ids that the table holds.
pub open spec fn listed(entries: Seq<ProcessSample>) -> Set<u32> {
    Set::new(|pid: u32| first_reading(entries, pid) is Some)
}

/// Copies out of the process list of `system` the names of the processes
/// that `table` holds.
pub fn names_from_system(table: &ProcessMemoryTable, system: &System) -> (names: NameTable)
    ensures
        names@ == process_names(*system).restrict(listed(table@)),
{
    let mut names = NameTable::new();
    let mut i: usize = 0;
    while i < table.len()
        invariant
            i <= table@.len(),
            names@ == process_names(*system).restrict(listed(table@.take(i as int))),
        decreases table@.len() - i,
    {
        let sample = table.entry(i).unwrap();
        let ghost before = table@.take(i as int);
        let ghost after = table@.take(i + 1);
        assert(after.drop_last() =~= before);
        if let Some(name) = lookup_process_name(system, sample.pid) {
            names.record(sample.pid, name);
        }
        i += 1;
    }
    assert(table@.take(i as int) =~= table@);
    names
}

/// Names beyond the listed processes do not matter to the table: cut down
/// to the processes that `table` holds, `names` resolves each of them as
/// before.
pub proof fn lemma_names_of_listed(table: Seq<ProcessSample>, names: Map<u32, Seq<char>>)
    ensures
        forall|i: int|
            0 <= i < table.len() ==> resolved_name(
                names.restrict(listed(table)),
                (#[trigger] table[i]).pid,
            ) == resolved_name(names, table[i].pid),
{
    assert forall|i: int| 0 <= i < table.len() implies resolved_name(
        names.restrict(listed(table)),
        (#[trigger] table[i]).pid,
    ) == resolved_name(names, table[i].pid) by {
        lemma_first_reading_none(table, table[i].pid);
        assert(listed(table).contains(table[i].pid));
    }
}

} // verus!
