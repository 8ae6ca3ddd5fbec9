use gpu_telemetry::device::get_gpu_memory_utilization;
use gpu_telemetry::device::get_gpu_processes;
use gpu_telemetry::device::get_metrics;
use gpu_telemetry::device::gpu_process_lines;
use gpu_telemetry::device::memory_figures;
use gpu_telemetry::device::metrics_of;
use gpu_telemetry::device::process_lines_of;
use gpu_telemetry::device::MetricsUnavailable;
use gpu_telemetry::memory::MemoryReading;
use gpu_telemetry::memory::MemorySample;
use gpu_telemetry::names::get_process_name;
use gpu_telemetry::table::ProcessSample;
use nvml_wrapper::error::NvmlError;
use nvml_wrapper::Nvml;
use sysinfo::ProcessesToUpdate;
use sysinfo::System;

fn used(pid: u32, bytes: u64) -> ProcessSample {
    ProcessSample { pid, used: MemoryReading::Used(bytes) }
}

#[test]
fn lines_without_a_process_list_show_unknown() {
    let system = System::new();
    let lines = gpu_process_lines(&vec![used(30, 1_048_576)], &vec![used(10, 2_097_152)], &system);
    assert_eq!(
        lines,
        vec![
            format!("{:<8} {:<24} {:<16}\n", 30, "unknown", 1),
            format!("{:<8} {:<24} {:<16}\n", 10, "unknown", 2),
        ]
    );
}

#[test]
fn lines_take_names_from_the_process_list() {
    let mut system = System::new();
    system.refresh_processes(ProcessesToUpdate::All, true);
    let own = sysinfo::get_current_pid().expect("the platform tells the process id").as_u32();
    let name = get_process_name(&system, own);
    assert_ne!(name, "unknown");
    let lines = gpu_process_lines(&vec![used(own, 5 * 1_048_576)], &Vec::new(), &system);
    assert_eq!(lines, vec![format!("{:<8} {:<24} {:<16}\n", own, name, 5)]);
}

#[test]
fn lines_of_no_process_are_none() {
    let system = System::new();
    assert_eq!(gpu_process_lines(&Vec::new(), &Vec::new(), &system), Vec::<String>::new());
}

#[test]
fn failure_value_is_plain() {
    assert_eq!(MetricsUnavailable, MetricsUnavailable);
    assert_eq!(format!("{:?}", MetricsUnavailable), "MetricsUnavailable");
}

#[test]
fn device_report_has_all_sections_where_a_device_is_present() {
    let nvml = match Nvml::init() {
        Ok(nvml) => nvml,
        Err(_) => return,
    };
    let device = match nvml.device_by_index(0) {
        Ok(device) => device,
        Err(_) => return,
    };
    let mut system = System::new();
    system.refresh_processes(ProcessesToUpdate::All, true);
    if let Ok((total, used, free)) = get_gpu_memory_utilization(&device) {
        assert!(used <= total);
        assert!(free <= total);
    }
    if let Ok(lines) = get_gpu_processes(&device, &system) {
        for line in &lines {
            assert!(line.ends_with('\n'));
            assert!(line.chars().count() >= 51);
        }
    }
    if let Ok(text) = get_metrics(&device, &system) {
        assert!(text.starts_with("Overall GPU utilization: "));
        assert!(text.contains("\nGPU Memory Usage: "));
        assert!(text.contains("\nProcesses using GPU memory:\n"));
        assert!(text.contains("\nPID      NAME                     GPU Memory (MiB)\n"));
    }
}

#[test]
fn memory_figures_follow_the_query() {
    let sample = MemorySample { total: 8_589_934_592, used: 4_294_967_296, free: 1_048_575 };
    assert_eq!(memory_figures(Ok(sample)), Ok((8192, 4096, 0)));
    assert_eq!(memory_figures(Err(NvmlError::Unknown)), Err(MetricsUnavailable));
    assert_eq!(memory_figures(Err(NvmlError::GpuLost)), Err(MetricsUnavailable));
}

#[test]
fn process_lines_need_both_lists() {
    let system = System::new();
    assert_eq!(
        process_lines_of(Ok(vec![used(5, 1_048_576)]), Ok(vec![used(5, 0), used(6, 0)]), &system),
        Ok(vec![
            format!("{:<8} {:<24} {:<16}\n", 5, "unknown", 1),
            format!("{:<8} {:<24} {:<16}\n", 6, "unknown", 0),
        ])
    );
    assert_eq!(process_lines_of(Ok(Vec::new()), Ok(Vec::new()), &system), Ok(Vec::new()));
    assert_eq!(
        process_lines_of(Err(NvmlError::Unknown), Ok(vec![used(6, 0)]), &system),
        Err(MetricsUnavailable)
    );
    assert_eq!(
        process_lines_of(Ok(vec![used(6, 0)]), Err(NvmlError::NotSupported), &system),
        Err(MetricsUnavailable)
    );
    assert_eq!(
        process_lines_of(Err(NvmlError::GpuLost), Err(NvmlError::GpuLost), &system),
        Err(MetricsUnavailable)
    );
}

#[test]
fn report_needs_every_part() {
    let lines = vec![format!("{:<8} {:<24} {:<16}\n", 100, "render", 1)];
    let text = metrics_of(Ok(42), Ok((8192, 4096, 4096)), Ok(lines.clone()));
    let expected = format!(
        "Overall GPU utilization: 42%\n{rule}GPU Memory Usage: 4096 MiB used / 8192 MiB total (4096 MiB free)\n{rule}Processes using GPU memory:\n{rule}{:<8} {:<24} {:<16}\n{}",
        "PID",
        "NAME",
        "GPU Memory (MiB)",
        lines[0],
        rule = "---------------------------\n\n"
    );
    assert_eq!(text, Ok(expected));
    assert_eq!(
        metrics_of(Err(NvmlError::Unknown), Ok((1, 1, 0)), Ok(lines.clone())),
        Err(MetricsUnavailable)
    );
    assert_eq!(
        metrics_of(Ok(42), Err(MetricsUnavailable), Ok(lines.clone())),
        Err(MetricsUnavailable)
    );
    assert_eq!(
        metrics_of(Ok(42), Ok((1, 1, 0)), Err(MetricsUnavailable)),
        Err(MetricsUnavailable)
    );
}

#[test]
fn repeated_compute_process_keeps_first_reading_through_the_query_outcomes() {
    let system = System::new();
    assert_eq!(
        process_lines_of(Ok(vec![used(7, 1_048_576), used(7, 2_097_152)]), Ok(Vec::new()), &system),
        Ok(vec![format!("{:<8} {:<24} {:<16}\n", 7, "unknown", 1)])
    );
}
