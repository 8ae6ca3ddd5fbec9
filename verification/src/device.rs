//! Polling one NVIDIA device through NVML and rendering what it reports.

use crate::memory::MemoryReading;
use crate::memory::MemorySample;
use crate::memory::MemoryUsage;
use crate::names::lemma_names_of_listed;
use crate::names::names_from_system;
use crate::names::process_names;
use crate::report::line_texts;
use crate::report::process_lines;
use crate::report::render_report;
use crate::report::report_text;
use crate::report::resolved_rows;
use crate::report::snapshot_text;
use crate::report::table_lines;
use crate::table::merge_processes;
use crate::table::merged;
use crate::table::ProcessSample;
use nvml_wrapper::enums::device::UsedGpuMemory;
use nvml_wrapper::error::NvmlError;
use nvml_wrapper::Device;
use sysinfo::System;
use vstd::prelude::*;

verus! {

/// A query of the device failed, so there is no report for this poll.
#[derive(Clone, Copy, Debug, PartialEq, Eq, Structural)]
pub struct MetricsUnavailable;

/// `nvml_wrapper::Device`, the handle of one device. It is carried as it
/// is and only handed to the queries below.
#[verifier::external_type_specification]
#[verifier::external_body]
pub struct ExDevice<'nvml>(Device<'nvml>);

/// `nvml_wrapper::error::NvmlError`, the reason a query failed. Nothing
/// here looks into it.
#[verifier::external_type_specification]
#[verifier::external_body]
pub struct ExNvmlError(NvmlError);

/// `nvml_wrapper::Device::utilization_rates`, of which the share of time
/// that the compute engine was busy is kept. Nothing is claimed of the
/// figure: it is what the driver reports at the moment of the call.
#[verifier::external_body]
fn query_utilization(device: &Device<'_>) -> (outcome: Result<u32, NvmlError>) {
    device.utilization_rates().map(|rates| rates.gpu)
}

/// `nvml_wrapper::Device::memory_info`, of which the total, used and free
/// byte counts are kept. Nothing is claimed of the figures.
#[verifier::external_body]
fn query_memory(device: &Device<'_>) -> (outcome: Result<MemorySample, NvmlError>) {
    device.memory_info().map(
        |info| MemorySample { total: info.total, used: info.used, free: info.free },
    )
}

/// `nvml_wrapper::Device::running_compute_processes`, each process given
/// as its id and its memory reading. Nothing is claimed of the list.
#[verifier::external_body]
fn query_compute_processes(device: &Device<'_>) -> (outcome: Result<Vec<ProcessSample>, NvmlError>) {
    let convert = |used: UsedGpuMemory| match used {
        UsedGpuMemory::Used(bytes) => MemoryReading::Used(bytes),
        UsedGpuMemory::Unavailable => MemoryReading::Unavailable,
    };
    let list = device.running_compute_processes()?.into_iter();
    Ok(list.map(|info| ProcessSample { pid: info.pid, used: convert(info.used_gpu_memory) }).collect())
}

/// `nvml_wrapper::Device::running_graphics_processes`, each process given
/// as its id and its memory reading. Nothing is claimed of the list.
#[verifier::external_body]
fn query_graphics_processes(device: &Device<'_>) -> (outcome: Result<Vec<ProcessSample>, NvmlError>) {
    let convert = |used: UsedGpuMemory| match used {
        UsedGpuMemory::Used(bytes) => MemoryReading::Used(bytes),
        UsedGpuMemory::Unavailable => MemoryReading::Unavailable,
    };
    let list = device.running_graphics_processes()?.into_iter();
    Ok(list.map(|info| ProcessSample { pid: info.pid, used: convert(info.used_gpu_memory) }).collect())
}

/// Total, used and free device memory in mebibytes, in this order.
pub open spec fn mib_figures(memory: MemorySample) -> (u64, u64, u64) {
    (memory.usage().total_mib, memory.usage().used_mib, memory.usage().free_mib)
}

/// The memory figures of a poll from the outcome of the memory query: the
/// figures in mebibytes, or no figures when the query failed, whatever the
/// driver gave as the reason.
pub fn memory_figures(outcome: Result<MemorySample, NvmlError>) -> (figures: Result<
    (u64, u64, u64),
    MetricsUnavailable,
>)
    ensures
        match outcome {
            Ok(memory) => figures == Ok::<(u64, u64, u64), MetricsUnavailable>(mib_figures(memory)),
            Err(_) => figures == Err::<(u64, u64, u64), MetricsUnavailable>(MetricsUnavailable),
        },
{
    match outcome {
        Ok(memory) => {
            let usage = memory.to_usage();
            Ok((usage.total_mib, usage.used_mib, usage.free_mib))
        },
        Err(_) => Err(MetricsUnavailable),
    }
}

/// Renders the processes of the two lists as sorted table lines, with names
/// from the process list of `system`.
pub fn gpu_process_lines(
    compute: &Vec<ProcessSample>,
    graphics: &Vec<ProcessSample>,
    system: &System,
) -> (lines: Vec<String>)
    ensures
        line_texts(lines@) == table_lines(merged(compute@, graphics@), process_names(*system)),
{
    let table = merge_processes(compute, graphics);
    let names = names_from_system(&table, system);
    proof {
        lemma_names_of_listed(table@, process_names(*system));
        assert(resolved_rows(table@, names@) =~= resolved_rows(table@, process_names(*system)));
    }
    process_lines(&table, &names)
}

/// The table lines of a poll from the outcomes of the two process queries:
/// the sorted lines when both lists were read, nothing when either query
/// failed.
pub fn process_lines_of(
    compute: Result<Vec<ProcessSample>, NvmlError>,
    graphics: Result<Vec<ProcessSample>, NvmlError>,
    system: &System,
) -> (outcome: Result<Vec<String>, MetricsUnavailable>)
    ensures
        match (compute, graphics) {
            (Ok(compute_list), Ok(graphics_list)) => outcome matches Ok(lines) && line_texts(lines@)
                == table_lines(merged(compute_list@, graphics_list@), process_names(*system)),
            _ => outcome == Err::<Vec<String>, MetricsUnavailable>(MetricsUnavailable),
        },
{
    match (compute, graphics) {
        (Ok(compute_list), Ok(graphics_list)) => Ok(
            gpu_process_lines(&compute_list, &graphics_list, system),
        ),
        _ => Err(MetricsUnavailable),
    }
}

/// The report of a poll from the outcomes of its parts: the whole report
/// when utilization, memory figures and table lines are all there, and no
/// report at all when any of them is missing.
pub fn metrics_of(
    utilization: Result<u32, NvmlError>,
    figures: Result<(u64, u64, u64), MetricsUnavailable>,
    lines: Result<Vec<String>, MetricsUnavailable>,
) -> (outcome: Result<String, MetricsUnavailable>)
    ensures
        match (utilization, figures, lines) {
            (Ok(percent), Ok(mib), Ok(rows)) => outcome matches Ok(text) && text@ == report_text(
                percent,
                MemoryUsage { total_mib: mib.0, used_mib: mib.1, free_mib: mib.2 },
                line_texts(rows@),
            ),
            _ => outcome == Err::<String, MetricsUnavailable>(MetricsUnavailable),
        },
{
    match (utilization, figures, lines) {
        (Ok(percent), Ok(mib), Ok(rows)) => {
            let usage = MemoryUsage { total_mib: mib.0, used_mib: mib.1, free_mib: mib.2 };
            Ok(render_report(percent, &usage, &rows))
        },
        _ => Err(MetricsUnavailable),
    }
}

/// Reads the memory figures of the device and converts them to mebibytes:
/// total, used, free.
pub fn get_gpu_memory_utilization(device: &Device<'_>) -> (outcome: Result<
    (u64, u64, u64),
    MetricsUnavailable,
>)
    ensures
        outcome matches Ok(figures) ==> exists|memory: MemorySample|
            figures == #[trigger] mib_figures(memory),
{
    let outcome = memory_figures(query_memory(device));
    outcome
}

/// Reads the two process lists of the device and renders the processes as
/// sorted table lines, with names from the process list of `system`. The
/// graphics list is not asked for once the compute list could not be read.
pub fn get_gpu_processes(device: &Device<'_>, system: &System) -> (outcome: Result<
    Vec<String>,
    MetricsUnavailable,
>)
    ensures
        outcome matches Ok(lines) ==> exists|
            compute: Seq<ProcessSample>,
            graphics: Seq<ProcessSample>,
        |
            line_texts(lines@) == #[trigger] table_lines(
                merged(compute, graphics),
                process_names(*system),
            ),
{
    let compute = query_compute_processes(device);
    if compute.is_err() {
        return Err(MetricsUnavailable);
    }
    let graphics = query_graphics_processes(device);
    let outcome = process_lines_of(compute, graphics, system);
    outcome
}

/// Polls the device once and renders the report, with process names from
/// the process list of `system`. There is a report only if every query
/// succeeds; after a query that failed the device is not asked again.
pub fn get_metrics(device: &Device<'_>, system: &System) -> (outcome: Result<
    String,
    MetricsUnavailable,
>)
    ensures
        outcome matches Ok(text) ==> exists|
            utilization: u32,
            memory: MemorySample,
            compute: Seq<ProcessSample>,
            graphics: Seq<ProcessSample>,
        |
            text@ == #[trigger] snapshot_text(
                utilization,
                memory,
                compute,
                graphics,
                process_names(*system),
            ),
{
    let utilization = query_utilization(device);
    if utilization.is_err() {
        return Err(MetricsUnavailable);
    }
    let figures = get_gpu_memory_utilization(device);
    if figures.is_err() {
        return Err(MetricsUnavailable);
    }
    let lines = get_gpu_processes(device, system);
    let outcome = metrics_of(utilization, figures, lines);
    proof {
        if outcome is Ok {
            let text = outcome->Ok_0;
            let percent = utilization->Ok_0;
            let mib = figures->Ok_0;
            let rows = lines->Ok_0;
            let memory = choose|memory: MemorySample| mib == #[trigger] mib_figures(memory);
            let (compute, graphics) = choose|
                compute: Seq<ProcessSample>,
                graphics: Seq<ProcessSample>,
            |
                line_texts(rows@) == #[trigger] table_lines(
                    merged(compute, graphics),
                    process_names(*system),
                );
            assert(MemoryUsage { total_mib: mib.0, used_mib: mib.1, free_mib: mib.2 }
                == memory.usage());
            assert(text@ == snapshot_text(
                percent,
                memory,
                compute,
                graphics,
                process_names(*system),
            ));
        }
    }
    outcome
}

} // verus!
