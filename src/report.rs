//! Turning a raw measurement into human-readable statistics.
use vstd::prelude::*;
use vstd::arithmetic::div_mod::{lemma_fundamental_div_mod, lemma_div_is_ordered, lemma_hoist_over_denominator, lemma_multiply_divide_lt};
use crate::text::{decimal, hundredths, thousandths, rounded_div, grouped_decimal, push_decimal, push_hundredths, push_thousandths, rounded_quotient};

verus! {

pub const NANOS_PER_SEC: u128 = 1_000_000_000;
pub const MIB: u128 = 1_048_576;
pub const GIB: u128 = 1_073_741_824;
pub const TIB: u128 = 1_099_511_627_776;

/// What one measurement phase produced.
pub struct BenchmarkResult {
    /// Number of `step` calls made in the measurement phase.
    pub iterations: usize,
    /// Elapsed wall time of the measurement phase, in nanoseconds.
    pub duration_nanos: u64,
    /// Time-stamp-counter delta over the measurement phase.
    pub cycles: u64,
}

/// A duration of `nanos` nanoseconds in the unit that suits its size.
pub open spec fn time_text(nanos: nat) -> Seq<char> {
    let millis = nanos / 1_000_000;
    let secs = nanos / 1_000_000_000;
    if nanos < 1000 {
        decimal(nanos) + " ns"@
    } else if nanos < 5_000_000 {
        decimal(nanos / 1000) + " μs"@
    } else if nanos < 3_000_000_000 {
        decimal(millis) + " ms"@
    } else if secs <= 120 {
        hundredths(rounded_div(millis, 10)) + " s"@
    } else if secs <= 3600 {
        hundredths(rounded_div(secs * 100, 60)) + " min"@
    } else {
        hundredths(rounded_div(secs * 100, 3600)) + " hours"@
    }
}

/// How many of `count` happen in one second when they take `nanos` in all,
/// rounded down and capped at `u128::MAX`.
pub open spec fn per_second(count: nat, nanos: nat) -> nat {
    let exact = (count * (NANOS_PER_SEC as nat)) / nanos;
    if exact <= u128::MAX {
        exact as nat
    } else {
        u128::MAX as nat
    }
}

/// Nanoseconds needed for `amount` bytes at the rate of `bytes` bytes in
/// `nanos` nanoseconds, rounded down.
pub open spec fn time_for_bytes(nanos: nat, bytes: nat, amount: nat) -> nat {
    nanos * amount / bytes
}

proof fn lemma_scaled_quotient(count: nat, n: nat, g: nat)
    requires
        n > 0,
    ensures
        count * g / n == (count / n) * g + (count % n) * g / n,
{
    let q = count / n;
    let m = count % n;
    lemma_fundamental_div_mod(count as int, n as int);
    assert(count * g == m * g + (q * g) * n) by (nonlinear_arith)
        requires
            count == n * q + m,
    ;
    lemma_hoist_over_denominator((m * g) as int, (q * g) as int, n);
}

/// How many of `count` happen per second when all of them take `nanos`
/// nanoseconds, rounded down and capped at `u128::MAX`.
pub fn rate_per_second(count: u128, nanos: u64) -> (r: u128)
    requires
        nanos > 0,
    ensures
        r == per_second(count as nat, nanos as nat),
{
    let n = nanos as u128;
    let q = count / n;
    let m = count % n;
    proof {
        lemma_scaled_quotient(count as nat, n as nat, NANOS_PER_SEC as nat);
        assert(m * NANOS_PER_SEC < 0x1_0000_0000_0000_0000 * NANOS_PER_SEC) by (nonlinear_arith)
            requires
                m < n,
                n < 0x1_0000_0000_0000_0000,
        ;
    }
    let low = m * NANOS_PER_SEC / n;
    if q > u128::MAX / NANOS_PER_SEC {
        assert(q * NANOS_PER_SEC > u128::MAX) by (nonlinear_arith)
            requires
                q > u128::MAX / NANOS_PER_SEC,
        ;
        return u128::MAX;
    }
    assert(q * NANOS_PER_SEC <= u128::MAX) by (nonlinear_arith)
        requires
            q <= u128::MAX / NANOS_PER_SEC,
    ;
    let high = q * NANOS_PER_SEC;
    if high > u128::MAX - low {
        u128::MAX
    } else {
        high + low
    }
}

/// Nanoseconds needed for `amount` bytes when `bytes` bytes took `nanos`
/// nanoseconds, rounded down.
pub fn time_for(nanos: u64, bytes: u128, amount: u128) -> (r: u128)
    requires
        bytes > 0,
        amount <= u64::MAX,
    ensures
        r == time_for_bytes(nanos as nat, bytes as nat, amount as nat),
{
    assert(nanos * amount <= 0xffff_ffff_ffff_ffff * 0xffff_ffff_ffff_ffff) by (nonlinear_arith)
        requires
            nanos <= 0xffff_ffff_ffff_ffff,
            amount <= 0xffff_ffff_ffff_ffff,
    ;
    (nanos as u128) * amount / bytes
}

/// Extrapolation is consistent across units: at one measured rate, the time
/// for a GiB is 1024 times the time for a MiB, up to the rounding of the
/// smaller figure (less than 1024 ns).
pub proof fn lemma_gib_time_is_1024_mib_times(nanos: nat, bytes: nat)
    requires
        bytes > 0,
    ensures
        1024 * time_for_bytes(nanos, bytes, MIB as nat) <= time_for_bytes(nanos, bytes, GIB as nat),
        time_for_bytes(nanos, bytes, GIB as nat) < 1024 * time_for_bytes(nanos, bytes, MIB as nat) + 1024,
{
    let a: nat = nanos * (MIB as nat);
    let q: nat = a / bytes;
    let m: nat = a % bytes;
    lemma_fundamental_div_mod(a as int, bytes as int);
    assert(nanos * GIB == 1024 * m + (1024 * q) * bytes) by (nonlinear_arith)
        requires
            a == bytes * q + m,
            a == nanos * MIB,
    ;
    lemma_hoist_over_denominator((1024 * m) as int, (1024 * q) as int, bytes);
    lemma_multiply_divide_lt((1024 * m) as int, bytes as int, 1024);
}

/// The power of 1024 of the largest binary unit, from B (0) up to ZiB (7),
/// that is not larger than `bytes`.
pub open spec fn unit_power(bytes: nat) -> nat {
    if bytes >= 1_180_591_620_717_411_303_424 {
        7
    } else if bytes >= 1_152_921_504_606_846_976 {
        6
    } else if bytes >= 1_125_899_906_842_624 {
        5
    } else if bytes >= 1_099_511_627_776 {
        4
    } else if bytes >= 1_073_741_824 {
        3
    } else if bytes >= 1_048_576 {
        2
    } else if bytes >= 1024 {
        1
    } else {
        0
    }
}

/// What byte-unit prints for `bytes` in the binary unit of 1024^`power`
/// bytes, with `digits` fractional digits.
pub uninterp spec fn adjusted_size_text(bytes: u128, power: usize, digits: usize) -> Seq<char>;

/// `bytes` in the largest binary unit it fills, with `digits` fractional
/// digits.
pub open spec fn size_text(bytes: u128, digits: usize) -> Seq<char> {
    adjusted_size_text(bytes, unit_power(bytes as nat) as usize, digits)
}

/// Relies on byte-unit's `Byte::from_bytes`, `Byte::get_adjusted_unit` and
/// `AdjustedByte::format`: the text depends on the three arguments alone.
#[verifier::external_body]
fn adjusted_size(bytes: u128, power: usize, digits: usize) -> (r: String)
    requires
        power <= 7,
        digits <= 3,
    ensures
        r@ == adjusted_size_text(bytes, power, digits),
{
    let unit = match power {
        0 => byte_unit::ByteUnit::B,
        1 => byte_unit::ByteUnit::KiB,
        2 => byte_unit::ByteUnit::MiB,
        3 => byte_unit::ByteUnit::GiB,
        4 => byte_unit::ByteUnit::TiB,
        5 => byte_unit::ByteUnit::PiB,
        6 => byte_unit::ByteUnit::EiB,
        _ => byte_unit::ByteUnit::ZiB,
    };
    byte_unit::Byte::from_bytes(bytes).get_adjusted_unit(unit).format(digits)
}

/// `bytes` in the largest binary unit it fills: 1024 bytes are 1 KiB.
fn binary_size(bytes: u128, digits: usize) -> (r: String)
    requires
        digits <= 3,
    ensures
        r@ == size_text(bytes, digits),
{
    let power: usize = if bytes >= 1_180_591_620_717_411_303_424 {
        7
    } else if bytes >= 1_152_921_504_606_846_976 {
        6
    } else if bytes >= 1_125_899_906_842_624 {
        5
    } else if bytes >= 1_099_511_627_776 {
        4
    } else if bytes >= 1_073_741_824 {
        3
    } else if bytes >= 1_048_576 {
        2
    } else if bytes >= 1024 {
        1
    } else {
        0
    };
    adjusted_size(bytes, power, digits)
}

/// Relies on num-format's `ToFormattedString::to_formatted_string` with
/// `Locale::en`: decimal digits, "," between groups of three.
#[verifier::external_body]
fn grouped(n: u128) -> (r: String)
    ensures
        r@ == grouped_decimal(n as nat),
{
    num_format::ToFormattedString::to_formatted_string(&n, &num_format::Locale::en)
}

/// The workload's name, followed by the per-iteration size when there is one.
pub open spec fn label(name: Seq<char>, size: usize) -> Seq<char> {
    if size > 0 {
        name + " <"@ + size_text(size as u128, 0) + ">"@
    } else {
        name
    }
}

/// Elapsed milliseconds and the number of iterations done in them.
pub open spec fn elapsed_text(nanos: nat, iterations: nat) -> Seq<char> {
    decimal(nanos / 1_000_000) + " miliseconds, no overhead: "@ + grouped_decimal(iterations)
}

/// `count` per second, or "n/a" when no time was measured.
pub open spec fn rate_text(count: nat, nanos: nat) -> Seq<char> {
    if nanos == 0 {
        "n/a"@
    } else {
        grouped_decimal(per_second(count, nanos))
    }
}

/// Bytes per second, or "n/a" when no time was measured.
pub open spec fn throughput_text(bytes: nat, nanos: nat) -> Seq<char> {
    if nanos == 0 {
        "n/a"@
    } else {
        size_text(per_second(bytes, nanos) as u128, 3) + "/s"@
    }
}

/// Average time of one iteration; at or under 10 ns with three fractional
/// digits of a nanosecond.
pub open spec fn average_text(nanos: nat, iterations: nat) -> Seq<char> {
    if iterations == 0 {
        "n/a"@
    } else if nanos / iterations <= 10 {
        thousandths(rounded_div(nanos * 1000, iterations)) + " ns"@
    } else {
        time_text(nanos / iterations)
    }
}

/// Average cycles of one iteration, with two fractional digits.
pub open spec fn cycles_text(cycles: nat, iterations: nat) -> Seq<char> {
    if iterations == 0 {
        "n/a"@
    } else {
        hundredths(rounded_div(cycles * 100, iterations))
    }
}

/// Time to handle `amount` bytes at the measured rate.
pub open spec fn extrapolated_text(nanos: nat, bytes: nat, amount: nat) -> Seq<char> {
    if bytes == 0 {
        "n/a"@
    } else {
        time_text(time_for_bytes(nanos, bytes, amount))
    }
}

/// The lines that report `r` for a workload called `name` that handles
/// `size` bytes per iteration (0: not a byte-oriented workload).
pub open spec fn report_lines(r: BenchmarkResult, name: Seq<char>, size: usize) -> Seq<Seq<char>> {
    let tag = "["@ + label(name, size) + "] "@;
    let iterations = r.iterations as nat;
    let nanos = r.duration_nanos as nat;
    let total: nat = iterations * (size as nat);
    let counts = seq![
        tag + "Iterations in "@ + elapsed_text(nanos, iterations),
        tag + "Iterations / second: "@ + rate_text(iterations, nanos),
    ];
    let volume = if size > 0 {
        seq![
            tag + "Bytes handled per iteration: "@ + (decimal(size as nat) + " bytes"@),
            tag + "Total bytes processed: "@ + size_text(total as u128, 3),
            tag + "Throughput: "@ + throughput_text(total, nanos),
        ]
    } else {
        seq![]
    };
    let averages = seq![
        tag + "Avg single iteration: "@ + average_text(nanos, iterations),
        tag + "Avg single iteration cycles: "@ + cycles_text(r.cycles as nat, iterations),
    ];
    let outlook = if size > 0 {
        seq![
            tag + "Time to process 1 MiB: "@ + extrapolated_text(nanos, total, MIB as nat),
            tag + "Time to process 1 GiB: "@ + extrapolated_text(nanos, total, GIB as nat),
            tag + "Time to process 1 TiB: "@ + extrapolated_text(nanos, total, TIB as nat),
        ]
    } else {
        seq![]
    };
    counts + volume + averages + outlook
}

fn line(tag: &String, key: &str, value: &str) -> (r: String)
    ensures
        r@ == tag@ + key@ + value@,
{
    let mut r = tag.clone();
    r.append(key);
    r.append(value);
    r
}

fn na() -> (r: String)
    ensures
        r@ == "n/a"@,
{
    let mut r = String::new();
    r.append("n/a");
    assert(r@ =~= "n/a"@);
    r
}

impl BenchmarkResult {
    /// Renders a duration of `nanos` nanoseconds: whole nanoseconds below
    /// one microsecond, whole microseconds below 5 ms, whole milliseconds
    /// below 3 s, then seconds up to 120 s, minutes up to an hour and hours,
    /// each of the last three with two fractional digits.
    pub fn get_appropriate_time_unit(nanos: u128) -> (r: String)
        ensures
            r@ == time_text(nanos as nat),
    {
        let mut r = String::new();
        let millis = nanos / 1_000_000;
        let secs = nanos / 1_000_000_000;
        if nanos < 1000 {
            push_decimal(&mut r, nanos);
            r.append(" ns");
        } else if nanos < 5_000_000 {
            push_decimal(&mut r, nanos / 1000);
            r.append(" μs");
        } else if nanos < 3_000_000_000 {
            push_decimal(&mut r, millis);
            r.append(" ms");
        } else if secs <= 120 {
            push_hundredths(&mut r, rounded_quotient(millis, 10));
            r.append(" s");
        } else if secs <= 3600 {
            push_hundredths(&mut r, rounded_quotient(secs * 100, 60));
            r.append(" min");
        } else {
            assert(secs * 100 <= u128::MAX / 3) by {
                lemma_div_is_ordered(nanos as int, u128::MAX as int, 1_000_000_000);
            }
            push_hundredths(&mut r, rounded_quotient(secs * 100, 3600));
            r.append(" hours");
        }
        assert(r@ =~= time_text(nanos as nat));
        r
    }

    /// The statistics of this result, one line each, for a workload called
    /// `name` that handles `size` bytes per iteration (0: none).
    pub fn report(&self, name: &str, size: usize) -> (lines: Vec<String>)
        ensures
            lines@.map_values(|s: String| s@) == report_lines(*self, name@, size),
    {
        let iterations = self.iterations;
        let nanos = self.duration_nanos;
        assert((iterations as u128) * (size as u128) <= u128::MAX) by (nonlinear_arith)
            requires
                iterations < 0x1_0000_0000_0000_0000,
                size < 0x1_0000_0000_0000_0000,
        ;
        let total = (iterations as u128) * (size as u128);
        let mut tag = String::new();
        tag.append("[");
        tag.append(name);
        if size > 0 {
            tag.append(" <");
            let unit = binary_size(size as u128, 0);
            tag.append(unit.as_str());
            tag.append(">");
        }
        tag.append("] ");
        assert(tag@ =~= "["@ + label(name@, size) + "] "@);

        let mut value = String::new();
        push_decimal(&mut value, (nanos as u128) / 1_000_000);
        value.append(" miliseconds, no overhead: ");
        let count = grouped(iterations as u128);
        value.append(count.as_str());
        assert(value@ =~= elapsed_text(nanos as nat, iterations as nat));
        let mut lines: Vec<String> = Vec::new();
        lines.push(line(&tag, "Iterations in ", value.as_str()));

        let value = if nanos == 0 { na() } else { grouped(rate_per_second(iterations as u128, nanos)) };
        lines.push(line(&tag, "Iterations / second: ", value.as_str()));

        if size > 0 {
            let mut value = String::new();
            push_decimal(&mut value, size as u128);
            value.append(" bytes");
            assert(value@ =~= decimal(size as nat) + " bytes"@);
            lines.push(line(&tag, "Bytes handled per iteration: ", value.as_str()));
            let value = binary_size(total, 3);
            lines.push(line(&tag, "Total bytes processed: ", value.as_str()));
            let value = if nanos == 0 {
                na()
            } else {
                let mut v = binary_size(rate_per_second(total, nanos), 3);
                v.append("/s");
                assert(v@ =~= size_text(per_second(total as nat, nanos as nat) as u128, 3) + "/s"@);
                v
            };
            lines.push(line(&tag, "Throughput: ", value.as_str()));
        }

        let value = if iterations == 0 {
            na()
        } else if (nanos as u128) / (iterations as u128) <= 10 {
            let mut v = String::new();
            push_thousandths(&mut v, rounded_quotient((nanos as u128) * 1000, iterations as u128));
            v.append(" ns");
            assert(v@ =~= thousandths(rounded_div((nanos as nat) * 1000, iterations as nat)) + " ns"@);
            v
        } else {
            Self::get_appropriate_time_unit((nanos as u128) / (iterations as u128))
        };
        lines.push(line(&tag, "Avg single iteration: ", value.as_str()));

        let value = if iterations == 0 {
            na()
        } else {
            let mut v = String::new();
            push_hundredths(&mut v, rounded_quotient((self.cycles as u128) * 100, iterations as u128));
            v
        };
        lines.push(line(&tag, "Avg single iteration cycles: ", value.as_str()));

        if size > 0 {
            let v = if total == 0 { na() } else { Self::get_appropriate_time_unit(time_for(nanos, total, MIB)) };
            lines.push(line(&tag, "Time to process 1 MiB: ", v.as_str()));
            let v = if total == 0 { na() } else { Self::get_appropriate_time_unit(time_for(nanos, total, GIB)) };
            lines.push(line(&tag, "Time to process 1 GiB: ", v.as_str()));
            let v = if total == 0 { na() } else { Self::get_appropriate_time_unit(time_for(nanos, total, TIB)) };
            lines.push(line(&tag, "Time to process 1 TiB: ", v.as_str()));
        }
        assert(lines@.map_values(|s: String| s@) =~= report_lines(*self, name@, size));
        lines
    }
}

} // verus!
