//! The report: process rows, their order, and the text that shows them.

use crate::memory::MemorySample;
use crate::memory::MemoryUsage;
use crate::names::listed;
use crate::names::resolved_name;
use crate::names::NameTable;
use crate::order::ascending;
use crate::order::is_arrangement;
use crate::order::keeps_ties;
use crate::order::key_texts;
use crate::order::lemma_stable_order;
use crate::order::order_by_keys;
use crate::order::positions;
use crate::order::stable_order;
use crate::order::text_le;
use crate::table::first_reading;
use crate::table::lemma_first_reading_none;
use crate::table::merge_processes;
use crate::table::merged;
use crate::table::ProcessMemoryTable;
use crate::table::ProcessSample;
use crate::text::decimal;
use crate::text::decimal_string;
use crate::text::lowercase_of;
use crate::text::padded;
use crate::text::push_decimal;
use crate::text::push_padded;
use vstd::prelude::*;

verus! {

/// One process of the report: its id, the name that was found for it, and
/// the device memory it holds in mebibytes.
#[derive(Debug)]
pub struct ProcessMemoryEntry {
    pub pid: u32,
    pub name: String,
    pub memory_mib: u64,
}

/// A process of the report as the contracts see it.
pub struct Row {
    pub pid: u32,
    pub name: Seq<char>,
    pub memory_mib: u64,
}

impl View for ProcessMemoryEntry {
    type V = Row;

    open spec fn view(&self) -> Row {
        Row { pid: self.pid, name: self.name@, memory_mib: self.memory_mib }
    }
}

impl ProcessMemoryEntry {
    /// A copy of this entry.
    pub fn duplicate(&self) -> (copy: Self)
        ensures
            copy@ == self@,
    {
        ProcessMemoryEntry { pid: self.pid, name: self.name.clone(), memory_mib: self.memory_mib }
    }
}

/// The rows that the entries stand for.
pub open spec fn rows_of(entries: Seq<ProcessMemoryEntry>) -> Seq<Row> {
    Seq::new(entries.len(), |i: int| entries[i]@)
}

/// The row of one table entry: its name resolved, its reading in
/// mebibytes.
pub open spec fn resolved_row(sample: ProcessSample, names: Map<u32, Seq<char>>) -> Row {
    Row {
        pid: sample.pid,
        name: resolved_name(names, sample.pid),
        memory_mib: sample.used.mib() as u64,
    }
}

/// The rows of a table, in table order.
pub open spec fn resolved_rows(table: Seq<ProcessSample>, names: Map<u32, Seq<char>>) -> Seq<Row> {
    Seq::new(table.len(), |i: int| resolved_row(table[i], names))
}

/// The keys by which rows are sorted: their names in lowercase.
pub open spec fn sort_keys(rows: Seq<Row>) -> Seq<Seq<char>> {
    Seq::new(rows.len(), |i: int| lowercase_of(rows[i].name))
}

/// The rows picked in the given order.
pub open spec fn arranged(rows: Seq<Row>, order: Seq<int>) -> Seq<Row> {
    Seq::new(rows.len(), |i: int| rows[order[i]])
}

/// The rows sorted by name without regard to case; rows whose names differ
/// in case only keep their relative order.
pub open spec fn sorted_rows(rows: Seq<Row>) -> Seq<Row> {
    arranged(rows, stable_order(sort_keys(rows)))
}

/// The table line of one row: id, name and mebibytes, left-aligned in
/// columns of 8, 24 and 16 characters with one space between them.
pub open spec fn row_line(row: Row) -> Seq<char> {
    padded(decimal(row.pid as nat), 8) + " "@ + padded(row.name, 24) + " "@ + padded(
        decimal(row.memory_mib as nat),
        16,
    ) + "\n"@
}

/// The table lines of the rows, in order.
pub open spec fn row_lines(rows: Seq<Row>) -> Seq<Seq<char>> {
    Seq::new(rows.len(), |i: int| row_line(rows[i]))
}

/// The texts that the strings hold.
pub open spec fn line_texts(lines: Seq<String>) -> Seq<Seq<char>> {
    Seq::new(lines.len(), |i: int| lines[i]@)
}

/// The lines one after another.
pub open spec fn joined(lines: Seq<Seq<char>>) -> Seq<char>
    decreases lines.len(),
{
    if lines.len() == 0 {
        Seq::empty()
    } else {
        joined(lines.drop_last()) + lines.last()
    }
}

/// The two lines on device utilization, with the rule under them.
pub open spec fn utilization_section(utilization: u32) -> Seq<char> {
    "Overall GPU utilization: "@ + decimal(utilization as nat) + "%\n"@
        + "---------------------------\n\n"@
}

/// The line on device memory, with the rule under it.
pub open spec fn memory_section(usage: MemoryUsage) -> Seq<char> {
    "GPU Memory Usage: "@ + decimal(usage.used_mib as nat) + " MiB used / "@ + decimal(
        usage.total_mib as nat,
    ) + " MiB total ("@ + decimal(usage.free_mib as nat) + " MiB free)\n"@
        + "---------------------------\n\n"@
}

/// The title of the process table, the rule under it, and the column
/// heads.
pub open spec fn table_heading() -> Seq<char> {
    "Processes using GPU memory:\n"@ + "---------------------------\n\n"@ + padded("PID"@, 8)
        + " "@ + padded("NAME"@, 24) + " "@ + padded("GPU Memory (MiB)"@, 16) + "\n"@
}

/// What stands under the column heads: the table lines, or one line that
/// says there are none.
pub open spec fn table_body(lines: Seq<Seq<char>>) -> Seq<char> {
    if lines.len() == 0 {
        "(No active GPU processes)\n"@
    } else {
        joined(lines)
    }
}

/// The whole report.
pub open spec fn report_text(utilization: u32, usage: MemoryUsage, lines: Seq<Seq<char>>) -> Seq<
    char,
> {
    utilization_section(utilization) + memory_section(usage) + table_heading() + table_body(lines)
}

/// The table lines for a process table: rows resolved, sorted, rendered.
pub open spec fn table_lines(table: Seq<ProcessSample>, names: Map<u32, Seq<char>>) -> Seq<
    Seq<char>,
> {
    row_lines(sorted_rows(resolved_rows(table, names)))
}

/// The report for one poll of the device.
pub open spec fn snapshot_text(
    utilization: u32,
    memory: MemorySample,
    compute: Seq<ProcessSample>,
    graphics: Seq<ProcessSample>,
    names: Map<u32, Seq<char>>,
) -> Seq<char> {
    report_text(utilization, memory.usage(), table_lines(merged(compute, graphics), names))
}

/// Resolves the name of each process of the table and converts its reading
/// to mebibytes.
pub fn resolve_rows(table: &ProcessMemoryTable, names: &NameTable) -> (rows: Vec<
    ProcessMemoryEntry,
>)
    ensures
        rows_of(rows@) == resolved_rows(table@, names@),
{
    let mut rows: Vec<ProcessMemoryEntry> = Vec::new();
    let mut i: usize = 0;
    while i < table.len()
        invariant
            i <= table@.len(),
            rows.len() == i,
            forall|j: int| 0 <= j < i ==> (#[trigger] rows@[j])@ == resolved_row(table@[j], names@),
        decreases table@.len() - i,
    {
        let sample = table.entry(i).unwrap();
        rows.push(
            ProcessMemoryEntry {
                pid: sample.pid,
                name: names.resolve(sample.pid),
                memory_mib: sample.used.to_mib(),
            },
        );
        i += 1;
    }
    rows
}

/// Sorts the rows by name without regard to case. Rows whose names differ
/// in case only keep their relative order.
pub fn sort_rows(rows: &Vec<ProcessMemoryEntry>) -> (sorted: Vec<ProcessMemoryEntry>)
    ensures
        rows_of(sorted@) == sorted_rows(rows_of(rows@)),
{
    let mut keys: Vec<String> = Vec::new();
    let mut i: usize = 0;
    while i < rows.len()
        invariant
            i <= rows.len(),
            keys.len() == i,
            forall|j: int| 0 <= j < i ==> (#[trigger] keys@[j])@ == lowercase_of(rows@[j].name@),
        decreases rows.len() - i,
    {
        keys.push(rows[i].name.as_str().to_lowercase());
        i += 1;
    }
    assert(key_texts(keys@) =~= sort_keys(rows_of(rows@)));
    let order = order_by_keys(&keys);
    proof {
        lemma_stable_order(key_texts(keys@));
    }
    let ghost places = positions(order@);
    let mut sorted: Vec<ProcessMemoryEntry> = Vec::new();
    let mut k: usize = 0;
    while k < order.len()
        invariant
            k <= order.len(),
            order.len() == rows.len(),
            places == positions(order@),
            is_arrangement(places, rows.len() as nat),
            sorted.len() == k,
            forall|j: int| 0 <= j < k ==> (#[trigger] sorted@[j])@ == rows@[places[j]]@,
        decreases order.len() - k,
    {
        assert(places[k as int] == order[k as int]);
        sorted.push(rows[order[k]].duplicate());
        k += 1;
    }
    sorted
}

/// Renders the table line of one entry.
pub fn format_row(entry: &ProcessMemoryEntry) -> (line: String)
    ensures
        line@ == row_line(entry@),
{
    let pid = decimal_string(entry.pid as u64);
    let memory = decimal_string(entry.memory_mib);
    let mut line = String::new();
    push_padded(&mut line, pid.as_str(), 8);
    line.append(" ");
    push_padded(&mut line, entry.name.as_str(), 24);
    line.append(" ");
    push_padded(&mut line, memory.as_str(), 16);
    line.append("\n");
    line
}

/// Renders the table lines of the entries, in order.
pub fn format_rows(rows: &Vec<ProcessMemoryEntry>) -> (lines: Vec<String>)
    ensures
        line_texts(lines@) == row_lines(rows_of(rows@)),
{
    let mut lines: Vec<String> = Vec::new();
    let mut i: usize = 0;
    while i < rows.len()
        invariant
            i <= rows.len(),
            lines.len() == i,
            forall|j: int| 0 <= j < i ==> (#[trigger] lines@[j])@ == row_line(rows@[j]@),
        decreases rows.len() - i,
    {
        lines.push(format_row(&rows[i]));
        i += 1;
    }
    lines
}

/// Renders the process table of one poll as sorted table lines.
pub fn process_lines(table: &ProcessMemoryTable, names: &NameTable) -> (lines: Vec<String>)
    ensures
        line_texts(lines@) == table_lines(table@, names@),
{
    let rows = resolve_rows(table, names);
    let sorted = sort_rows(&rows);
    format_rows(&sorted)
}

/// Renders the column heads and what goes above them.
fn heading_string() -> (text: String)
    ensures
        text@ == table_heading(),
{
    let mut text = String::new();
    text.append("Processes using GPU memory:\n");
    text.append("---------------------------\n\n");
    push_padded(&mut text, "PID", 8);
    text.append(" ");
    push_padded(&mut text, "NAME", 24);
    text.append(" ");
    push_padded(&mut text, "GPU Memory (MiB)", 16);
    text.append("\n");
    text
}

/// Renders the report from the device figures and the table lines.
pub fn render_report(utilization: u32, usage: &MemoryUsage, lines: &Vec<String>) -> (text: String)
    ensures
        text@ == report_text(utilization, *usage, line_texts(lines@)),
{
    let mut text = String::new();
    text.append("Overall GPU utilization: ");
    push_decimal(&mut text, utilization as u64);
    text.append("%\n");
    text.append("---------------------------\n\n");
    let mut memory = String::new();
    memory.append("GPU Memory Usage: ");
    push_decimal(&mut memory, usage.used_mib);
    memory.append(" MiB used / ");
    push_decimal(&mut memory, usage.total_mib);
    memory.append(" MiB total (");
    push_decimal(&mut memory, usage.free_mib);
    memory.append(" MiB free)\n");
    memory.append("---------------------------\n\n");
    text.append(memory.as_str());
    text.append(heading_string().as_str());
    let ghost above = text@;
    if lines.len() == 0 {
        text.append("(No active GPU processes)\n");
    } else {
        let mut i: usize = 0;
        while i < lines.len()
            invariant
                i <= lines.len(),
                text@ == above + joined(line_texts(lines@).take(i as int)),
            decreases lines.len() - i,
        {
            text.append(lines[i].as_str());
            assert(line_texts(lines@).take(i + 1).drop_last() =~= line_texts(lines@).take(
                i as int,
            ));
            i += 1;
        }
        assert(line_texts(lines@).take(i as int) =~= line_texts(lines@));
    }
    text
}

/// Builds the report for one poll: the two process lists are merged, names
/// resolved, readings converted to mebibytes, rows sorted by name, and the
/// whole rendered as text.
pub fn build_snapshot(
    utilization: u32,
    memory: &MemorySample,
    compute: &Vec<ProcessSample>,
    graphics: &Vec<ProcessSample>,
    names: &NameTable,
) -> (text: String)
    ensures
        text@ == snapshot_text(utilization, *memory, compute@, graphics@, names@),
{
    let table = merge_processes(compute, graphics);
    let lines = process_lines(&table, names);
    let usage = memory.to_usage();
    render_report(utilization, &usage, &lines)
}

/// Sorting rearranges the rows and nothing else: the order is an
/// arrangement of the row indices, names in lowercase never descend along
/// it, and of two rows with the same lowercase name the one that stood
/// first before stands first after.
pub proof fn lemma_sorted_rows(rows: Seq<Row>)
    ensures
        sorted_rows(rows).len() == rows.len(),
        is_arrangement(stable_order(sort_keys(rows)), rows.len()),
        forall|p: int|
            0 <= p < rows.len() ==> #[trigger] sorted_rows(rows)[p] == rows[stable_order(
                sort_keys(rows),
            )[p]],
        forall|p: int, q: int|
            0 <= p < q < rows.len() ==> text_le(
                lowercase_of((#[trigger] sorted_rows(rows)[p]).name),
                lowercase_of((#[trigger] sorted_rows(rows)[q]).name),
            ),
        forall|p: int, q: int|
            0 <= p < q < rows.len() && lowercase_of((#[trigger] sorted_rows(rows)[p]).name)
                == lowercase_of((#[trigger] sorted_rows(rows)[q]).name) ==> stable_order(
                sort_keys(rows),
            )[p] < stable_order(sort_keys(rows))[q],
{
    let keys = sort_keys(rows);
    let order = stable_order(keys);
    lemma_stable_order(keys);
    assert forall|p: int, q: int| 0 <= p < q < rows.len() implies text_le(
        lowercase_of((#[trigger] sorted_rows(rows)[p]).name),
        lowercase_of((#[trigger] sorted_rows(rows)[q]).name),
    ) by {
        assert(text_le(keys[order[p]], keys[order[q]]));
    }
    assert forall|p: int, q: int|
        0 <= p < q < rows.len() && lowercase_of((#[trigger] sorted_rows(rows)[p]).name)
            == lowercase_of((#[trigger] sorted_rows(rows)[q]).name) implies order[p]
        < order[q] by {
        assert(keys[order[p]] == keys[order[q]]);
    }
}

/// The report is a function of the readings and of the names of the listed
/// processes alone. Two name tables that resolve every process of the two
/// lists alike give the same text, character for character; so does the
/// same table asked twice.
pub proof fn lemma_snapshot_determined(
    utilization: u32,
    memory: MemorySample,
    compute: Seq<ProcessSample>,
    graphics: Seq<ProcessSample>,
    names: Map<u32, Seq<char>>,
    others: Map<u32, Seq<char>>,
)
    requires
        forall|pid: u32|
            listed(merged(compute, graphics)).contains(pid) ==> resolved_name(names, pid)
                == resolved_name(others, pid),
    ensures
        snapshot_text(utilization, memory, compute, graphics, names) == snapshot_text(
            utilization,
            memory,
            compute,
            graphics,
            others,
        ),
{
    let table = merged(compute, graphics);
    assert forall|i: int| 0 <= i < table.len() implies resolved_row(table[i], names)
        == resolved_row(table[i], others) by {
        lemma_first_reading_none(table, table[i].pid);
        assert(listed(table).contains(table[i].pid));
    }
    assert(resolved_rows(table, names) =~= resolved_rows(table, others));
}

/// With no process in either list the report ends, under the column heads,
/// with the line that says so, and has no table line.
pub proof fn lemma_empty_snapshot(utilization: u32, memory: MemorySample, names: Map<u32, Seq<char>>)
    ensures
        table_lines(merged(Seq::empty(), Seq::empty()), names).len() == 0,
        snapshot_text(utilization, memory, Seq::empty(), Seq::empty(), names)
            == utilization_section(utilization) + memory_section(memory.usage()) + table_heading()
            + "(No active GPU processes)\n"@,
{
    let none = Seq::<ProcessSample>::empty();
    assert(merged(none, none) =~= none);
}

/// A process whose reading is unavailable is shown with `0` in the memory
/// column.
pub proof fn lemma_unavailable_row(pid: u32, names: Map<u32, Seq<char>>)
    ensures
        resolved_row(
            ProcessSample { pid, used: crate::memory::MemoryReading::Unavailable },
            names,
        ).memory_mib == 0,
        row_line(
            resolved_row(
                ProcessSample { pid, used: crate::memory::MemoryReading::Unavailable },
                names,
            ),
        ) == padded(decimal(pid as nat), 8) + " "@ + padded(resolved_name(names, pid), 24) + " "@
            + padded("0"@, 16) + "\n"@,
{
    reveal_strlit("0");
}

} // verus!
