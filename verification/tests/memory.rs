use gpu_telemetry::memory::bytes_to_mib;
use gpu_telemetry::memory::MemoryReading;
use gpu_telemetry::memory::MemorySample;
use gpu_telemetry::memory::BYTES_PER_MIB;

#[test]
fn mebibytes_are_truncated() {
    assert_eq!(bytes_to_mib(0), 0);
    assert_eq!(bytes_to_mib(1), 0);
    assert_eq!(bytes_to_mib(1_048_575), 0);
    assert_eq!(bytes_to_mib(1_048_576), 1);
    assert_eq!(bytes_to_mib(1_048_577), 1);
    assert_eq!(bytes_to_mib(2_097_151), 1);
    assert_eq!(bytes_to_mib(2_097_152), 2);
    assert_eq!(bytes_to_mib(u64::MAX), 17_592_186_044_415);
}

#[test]
fn mebibytes_equal_integer_division_on_many_values() {
    let mut bytes: u64 = 0;
    let mut step: u64 = 1;
    while bytes < u64::MAX / 2 {
        assert_eq!(bytes_to_mib(bytes), bytes / 1_048_576);
        assert_eq!(bytes_to_mib(bytes), bytes / 1024 / 1024);
        bytes += step;
        step = step * 3 + 1;
    }
    assert_eq!(BYTES_PER_MIB, 1024 * 1024);
}

#[test]
fn unavailable_reading_counts_as_zero() {
    assert_eq!(MemoryReading::Unavailable.to_mib(), 0);
}

#[test]
fn used_reading_is_converted() {
    assert_eq!(MemoryReading::Used(0).to_mib(), 0);
    assert_eq!(MemoryReading::Used(1_048_576).to_mib(), 1);
    assert_eq!(MemoryReading::Used(3 * 1_048_576 + 5).to_mib(), 3);
    assert_eq!(MemoryReading::Used(u64::MAX).to_mib(), 17_592_186_044_415);
}

#[test]
fn sample_converts_each_figure_on_its_own() {
    let sample = MemorySample { total: 8_589_934_592, used: 4_294_967_296, free: 4_294_967_295 };
    let usage = sample.to_usage();
    assert_eq!(usage.total_mib, 8192);
    assert_eq!(usage.used_mib, 4096);
    assert_eq!(usage.free_mib, 4095);
}

#[test]
fn sample_figures_need_not_add_up() {
    let sample = MemorySample { total: 10, used: 5 * 1_048_576, free: 7 * 1_048_576 };
    let usage = sample.to_usage();
    assert_eq!(usage.total_mib, 0);
    assert_eq!(usage.used_mib, 5);
    assert_eq!(usage.free_mib, 7);
}
