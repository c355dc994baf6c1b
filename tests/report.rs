use napkin_math::report::BenchmarkResult;

fn unit(nanos: u128) -> String {
    BenchmarkResult::get_appropriate_time_unit(nanos)
}

#[test]
fn time_unit_nanoseconds() {
    assert_eq!(unit(0), "0 ns");
    assert_eq!(unit(999), "999 ns");
}

#[test]
fn time_unit_microseconds() {
    assert_eq!(unit(1000), "1 μs");
    assert_eq!(unit(1500), "1 μs");
    assert_eq!(unit(2_500_000), "2500 μs");
    assert_eq!(unit(4_999_999), "4999 μs");
}

#[test]
fn time_unit_milliseconds() {
    assert_eq!(unit(5_000_000), "5 ms");
    assert_eq!(unit(1_500_000_000), "1500 ms");
    assert_eq!(unit(2_999_999_999), "2999 ms");
}

#[test]
fn time_unit_seconds() {
    assert_eq!(unit(1_500_000_000 * 2), "3.00 s");
    assert_eq!(unit(3_004_000_000), "3.00 s");
    assert_eq!(unit(3_006_000_000), "3.01 s");
    assert_eq!(unit(90_000_000_000), "90.00 s");
    assert_eq!(unit(120_999_000_000), "121.00 s");
}

#[test]
fn time_unit_minutes_and_hours() {
    assert_eq!(unit(150_000_000_000), "2.50 min");
    assert_eq!(unit(3_600_000_000_000), "60.00 min");
    assert_eq!(unit(7_200_000_000_000), "2.00 hours");
    assert_eq!(unit(5_400_000_000_000), "1.50 hours");
}

#[test]
fn report_without_bytes() {
    let r = BenchmarkResult { iterations: 1000, duration_nanos: 2_000_000, cycles: 5000 };
    let lines = r.report("x", 0);
    assert_eq!(
        lines,
        vec![
            "[x] Iterations in 2 miliseconds, no overhead: 1,000".to_string(),
            "[x] Iterations / second: 500,000".to_string(),
            "[x] Avg single iteration: 2 μs".to_string(),
            "[x] Avg single iteration cycles: 5.00".to_string(),
        ]
    );
}

#[test]
fn report_with_bytes() {
    let r = BenchmarkResult { iterations: 1000, duration_nanos: 2_000_000, cycles: 5000 };
    let lines = r.report("x", 64);
    assert_eq!(
        lines,
        vec![
            "[x <64 B>] Iterations in 2 miliseconds, no overhead: 1,000".to_string(),
            "[x <64 B>] Iterations / second: 500,000".to_string(),
            "[x <64 B>] Bytes handled per iteration: 64 bytes".to_string(),
            "[x <64 B>] Total bytes processed: 62.500 KiB".to_string(),
            "[x <64 B>] Throughput: 30.518 MiB/s".to_string(),
            "[x <64 B>] Avg single iteration: 2 μs".to_string(),
            "[x <64 B>] Avg single iteration cycles: 5.00".to_string(),
            "[x <64 B>] Time to process 1 MiB: 32 ms".to_string(),
            "[x <64 B>] Time to process 1 GiB: 33.55 s".to_string(),
            "[x <64 B>] Time to process 1 TiB: 9.54 hours".to_string(),
        ]
    );
}

#[test]
fn report_large_counts_are_grouped() {
    let r = BenchmarkResult { iterations: 1_234_567, duration_nanos: 5_000_000_000, cycles: 3 };
    let lines = r.report("g", 0);
    assert_eq!(lines[0], "[g] Iterations in 5000 miliseconds, no overhead: 1,234,567");
    assert_eq!(lines[1], "[g] Iterations / second: 246,913");
    assert_eq!(lines[2], "[g] Avg single iteration: 4 μs");
    assert_eq!(lines[3], "[g] Avg single iteration cycles: 0.00");
}

#[test]
fn report_precision_floor_fractional_nanoseconds() {
    let r = BenchmarkResult { iterations: 3, duration_nanos: 10, cycles: 10 };
    let lines = r.report("f", 0);
    assert_eq!(lines[2], "[f] Avg single iteration: 3.333 ns");
    assert_eq!(lines[3], "[f] Avg single iteration cycles: 3.33");
    let r = BenchmarkResult { iterations: 1, duration_nanos: 11, cycles: 0 };
    assert_eq!(r.report("f", 0)[2], "[f] Avg single iteration: 11 ns");
}

#[test]
fn report_zero_iterations_is_guarded() {
    let r = BenchmarkResult { iterations: 0, duration_nanos: 1_000_000, cycles: 7 };
    let lines = r.report("z", 8);
    assert_eq!(lines.len(), 10);
    assert_eq!(lines[3], "[z <8 B>] Total bytes processed: 0 B");
    assert_eq!(lines[5], "[z <8 B>] Avg single iteration: n/a");
    assert_eq!(lines[6], "[z <8 B>] Avg single iteration cycles: n/a");
    assert_eq!(lines[7], "[z <8 B>] Time to process 1 MiB: n/a");
}

#[test]
fn report_zero_duration_is_guarded() {
    let r = BenchmarkResult { iterations: 4, duration_nanos: 0, cycles: 0 };
    let lines = r.report("d", 1);
    assert_eq!(lines[1], "[d <1 B>] Iterations / second: n/a");
    assert_eq!(lines[4], "[d <1 B>] Throughput: n/a");
    assert_eq!(lines[7], "[d <1 B>] Time to process 1 MiB: 0 ns");
}

#[test]
fn byte_units() {
    let one = BenchmarkResult { iterations: 1, duration_nanos: 1_000_000_000, cycles: 0 };
    let lines = one.report("b", 1);
    assert_eq!(lines[0], "[b <1 B>] Iterations in 1000 miliseconds, no overhead: 1");
    let lines = one.report("b", 2048);
    assert_eq!(lines[0], "[b <2 KiB>] Iterations in 1000 miliseconds, no overhead: 1");
    assert_eq!(lines[3], "[b <2 KiB>] Total bytes processed: 2.000 KiB");
    assert_eq!(lines[4], "[b <2 KiB>] Throughput: 2.000 KiB/s");
    let lines = one.report("b", 1024);
    assert_eq!(lines[0], "[b <1 KiB>] Iterations in 1000 miliseconds, no overhead: 1");
    assert_eq!(lines[3], "[b <1 KiB>] Total bytes processed: 1.000 KiB");
    let lines = one.report("b", 1023);
    assert_eq!(lines[3], "[b <1023 B>] Total bytes processed: 1023 B");
    let lines = one.report("b", 1_048_576);
    assert_eq!(lines[3], "[b <1 MiB>] Total bytes processed: 1.000 MiB");
}

#[test]
fn extrapolation_gib_is_1024_times_mib() {
    let r = BenchmarkResult { iterations: 1, duration_nanos: 1, cycles: 0 };
    let lines = r.report("e", 1);
    assert_eq!(lines[7], "[e <1 B>] Time to process 1 MiB: 1048 μs");
    assert_eq!(lines[8], "[e <1 B>] Time to process 1 GiB: 1073 ms");
    assert_eq!(lines[9], "[e <1 B>] Time to process 1 TiB: 18.32 min");
}

#[test]
fn throughput_saturates_instead_of_overflowing() {
    let r = BenchmarkResult { iterations: usize::MAX, duration_nanos: 1, cycles: u64::MAX };
    let lines = r.report("s", usize::MAX);
    assert_eq!(lines.len(), 10);
    assert!(lines[4].ends_with("/s"));
}

#[test]
fn report_of_five_second_run() {
    let r = BenchmarkResult { iterations: 1000, duration_nanos: 5_000_000_000, cycles: 2_000_000 };
    assert_eq!(
        r.report("x", 0),
        vec![
            "[x] Iterations in 5000 miliseconds, no overhead: 1,000".to_string(),
            "[x] Iterations / second: 200".to_string(),
            "[x] Avg single iteration: 5 ms".to_string(),
            "[x] Avg single iteration cycles: 2000.00".to_string(),
        ]
    );
}
