//! The batch runner: validated repetition of the checksum kernel for
//! throughput measurement, the result value handed to presentation layers,
//! and the validation boundary that precedes any checksum work.

use vstd::prelude::*;
use vstd::string::StringSliceAdditionalSpecFns;
use crate::crc::{crc16_modbus_baseline, crc16_modbus_optimized, crc16_of};
use crate::hex::{is_ascii_space, parse_hex_input, parse_hex_model, HexScan, ParseError};
use crate::timing::{duration_nanos, instant_elapsed, instant_now};

verus! {

/// Smallest accepted iteration count.
pub const MIN_ITERATIONS: u64 = 1;

/// Largest accepted iteration count.
pub const MAX_ITERATIONS: u64 = 1_000_000_000;

/// Why a batch request was refused before any checksum work started.
#[derive(Debug, Clone, Copy, PartialEq, Eq, Structural)]
pub enum ValidationError {
    /// The parsed frame holds no bytes.
    EmptyFrame,
    /// The iteration count lies outside [1, 1_000_000_000].
    IterationOutOfRange,
    /// The iteration text is not an unsigned integer.
    NotANumber,
}

/// An accepted iteration count.
pub open spec fn iterations_in_range(n: u64) -> bool {
    1 <= n <= 1_000_000_000
}

/// The immutable outcome of one batch run: the checksum, its two
/// transmission-order bytes (least significant first, as Modbus RTU sends
/// them), and the measured wall-clock time in nanoseconds.
#[derive(Debug, Clone, Copy, PartialEq, Eq, Structural)]
pub struct CrcResult {
    pub crc_value: u16,
    pub crc_lsb: u8,
    pub crc_msb: u8,
    pub duration_nanos: u64,
}

impl CrcResult {
    /// The byte fields agree with the checksum.
    pub open spec fn wf(self) -> bool {
        self.crc_lsb == (self.crc_value & 0xFF) as u8 && self.crc_msb == (
        self.crc_value >> 8) as u8
    }

    /// Builds a result, deriving the two wire-order bytes.
    pub fn new(crc_value: u16, duration_nanos: u64) -> (r: CrcResult)
        ensures
            r.crc_value == crc_value,
            r.duration_nanos == duration_nanos,
            r.wf(),
    {
        proof {
            assert(crc_value & 0xFF < 256) by (bit_vector);
            assert(crc_value >> 8 < 256) by (bit_vector);
        }
        CrcResult {
            crc_value,
            crc_lsb: (crc_value & 0xFF) as u8,
            crc_msb: (crc_value >> 8) as u8,
            duration_nanos,
        }
    }
}

/// Repeats the checksum of `data` `iterations` times with the chosen kernel
/// and returns the (identical) result of the last repeat. The repeat count
/// never changes the value returned.
pub fn compute_batch_crcs_optimized(data: &[u8], iterations: u64, use_optimized: bool) -> (r: u16)
    ensures
        r == crc16_of(data@),
{
    let mut crc: u16 = if use_optimized {
        crc16_modbus_optimized(data)
    } else {
        crc16_modbus_baseline(data)
    };
    let mut k: u64 = 1;
    while k < iterations
        invariant
            crc == crc16_of(data@),
        decreases iterations - k,
    {
        crc = if use_optimized {
            crc16_modbus_optimized(data)
        } else {
            crc16_modbus_baseline(data)
        };
        k = k + 1;
    }
    crc
}

/// The caller-level policy on empty frames: a zero-length frame is
/// structurally fine but operationally useless, and is refused here before
/// any run starts.
pub fn validate_frame(data: &[u8]) -> (r: Result<(), ValidationError>)
    ensures
        r is Ok <==> data@.len() > 0,
        r is Err ==> r == Err::<(), ValidationError>(ValidationError::EmptyFrame),
{
    if data.len() == 0 {
        Err(ValidationError::EmptyFrame)
    } else {
        Ok(())
    }
}

/// The scheduling rule: the parallel path is open only to the optimized
/// variant, and only from 100_000 iterations up. Below that, execution is
/// sequential whatever the flag says.
pub fn parallel_eligible(iterations: u64, use_optimized: bool) -> (r: bool)
    ensures
        r == (use_optimized && iterations >= 100_000),
{
    use_optimized && iterations >= 100_000
}

/// Runs the checksum `iterations` times, timing the whole batch, after
/// checking the iteration range. The checksum of the result is the frame's
/// CRC-16/MODBUS value whatever the iteration count; only the measured
/// duration may differ between runs.
pub fn run_batch(data: &[u8], iterations: u64, use_optimized: bool) -> (r: Result<
    CrcResult,
    ValidationError,
>)
    ensures
        r is Ok <==> iterations_in_range(iterations),
        match r {
            Ok(res) => res.crc_value == crc16_of(data@) && res.wf(),
            Err(e) => e == ValidationError::IterationOutOfRange,
        },
{
    if iterations < MIN_ITERATIONS || iterations > MAX_ITERATIONS {
        return Err(ValidationError::IterationOutOfRange);
    }
    let start = instant_now();
    let crc = compute_batch_crcs_optimized(data, iterations, use_optimized);
    let elapsed = instant_elapsed(&start);
    let nanos = duration_nanos(&elapsed);
    Ok(CrcResult::new(crc, nanos))
}

/// ASCII decimal digit.
pub open spec fn is_dec_digit(c: u8) -> bool {
    48 <= c && c <= 57
}

/// Every byte of the sequence is a decimal digit.
pub open spec fn all_dec_digits(s: Seq<u8>) -> bool {
    forall|k: int| 0 <= k < s.len() ==> is_dec_digit(#[trigger] s[k])
}

/// Numeric value of a digit string, most significant digit first.
pub open spec fn dec_value(s: Seq<u8>) -> int
    decreases s.len(),
{
    if s.len() == 0 {
        0
    } else {
        dec_value(s.drop_last()) * 10 + (s.last() - 48)
    }
}

/// The sequence with its leading ASCII whitespace removed.
pub open spec fn trim_start_ws(s: Seq<u8>) -> Seq<u8>
    decreases s.len(),
{
    if s.len() > 0 && is_ascii_space(s[0]) {
        trim_start_ws(s.skip(1))
    } else {
        s
    }
}

/// The sequence with its trailing ASCII whitespace removed.
pub open spec fn trim_end_ws(s: Seq<u8>) -> Seq<u8>
    decreases s.len(),
{
    if s.len() > 0 && is_ascii_space(s.last()) {
        trim_end_ws(s.drop_last())
    } else {
        s
    }
}

/// The sequence with whitespace removed at both ends.
pub open spec fn trim_ws(s: Seq<u8>) -> Seq<u8> {
    trim_end_ws(trim_start_ws(s))
}

/// The digit part of the iteration text: an optional leading '+' stripped
/// from the trimmed text.
pub open spec fn iteration_digits(s: Seq<u8>) -> Seq<u8> {
    let t = trim_ws(s);
    if t.len() > 0 && t[0] == 43 {
        t.skip(1)
    } else {
        t
    }
}

/// What the iteration text denotes. Digits are read as `u64::from_str` reads
/// them — surrounding whitespace trimmed, an optional leading '+', at least
/// one digit, a value beyond u64 is a parse failure — and the accepted value
/// must then lie in [1, 1_000_000_000].
pub open spec fn iterations_model(s: Seq<u8>) -> Result<u64, ValidationError> {
    let d = iteration_digits(s);
    if d.len() == 0 || !all_dec_digits(d) {
        Err(ValidationError::NotANumber)
    } else if dec_value(d) > u64::MAX {
        Err(ValidationError::NotANumber)
    } else if dec_value(d) < 1 || dec_value(d) > 1_000_000_000 {
        Err(ValidationError::IterationOutOfRange)
    } else {
        Ok(dec_value(d) as u64)
    }
}

/// When the first `i` bytes are whitespace, trimming the whole sequence is
/// trimming the part from `i` on.
proof fn lemma_trim_start_skip(s: Seq<u8>, i: int)
    requires
        0 <= i <= s.len(),
        forall|k: int| 0 <= k < i ==> is_ascii_space(#[trigger] s[k]),
    ensures
        trim_start_ws(s) == trim_start_ws(s.skip(i)),
    decreases i,
{
    if i > 0 {
        assert(is_ascii_space(s[0]));
        assert forall|k: int| 0 <= k < i - 1 implies is_ascii_space(#[trigger] s.skip(1)[k]) by {
            assert(s.skip(1)[k] == s[k + 1]);
        }
        lemma_trim_start_skip(s.skip(1), i - 1);
        assert(s.skip(1).skip(i - 1) =~= s.skip(i));
    } else {
        assert(s.skip(0) =~= s);
    }
}

/// When everything from position `n` on is whitespace, trimming the end of
/// the whole sequence is trimming the end of the first `n` bytes.
proof fn lemma_trim_end_take(s: Seq<u8>, n: int)
    requires
        0 <= n <= s.len(),
        forall|k: int| n <= k < s.len() ==> is_ascii_space(#[trigger] s[k]),
    ensures
        trim_end_ws(s) == trim_end_ws(s.take(n)),
    decreases s.len() - n,
{
    if n < s.len() {
        assert(is_ascii_space(s.last()));
        assert forall|k: int|
            n <= k < s.drop_last().len() implies is_ascii_space(
            #[trigger] s.drop_last()[k],
        ) by {
            assert(s.drop_last()[k] == s[k]);
        }
        lemma_trim_end_take(s.drop_last(), n);
        assert(s.drop_last().take(n) =~= s.take(n));
    } else {
        assert(s.take(n) =~= s);
    }
}

/// Parses and validates the iteration text, exactly as `iterations_model`
/// describes: `Ok` with the count when it is a decimal integer in range,
/// `NotANumber` when it is not an unsigned integer at all, and
/// `IterationOutOfRange` when it is one but lies outside [1, 1_000_000_000].
pub fn parse_iterations(s: &str) -> (r: Result<u64, ValidationError>)
    ensures
        r == iterations_model(s.spec_bytes()),
{
    let b: &[u8] = s.as_bytes();
    let mut lo: usize = 0;
    while lo < b.len() && (b[lo] == 32 || b[lo] == 9 || b[lo] == 10 || b[lo] == 13 || b[lo] == 11
        || b[lo] == 12)
        invariant
            lo <= b.len(),
            forall|k: int| 0 <= k < lo ==> is_ascii_space(#[trigger] b@[k]),
        decreases b.len() - lo,
    {
        lo = lo + 1;
    }
    proof {
        lemma_trim_start_skip(b@, lo as int);
        assert(trim_start_ws(b@.skip(lo as int)) == b@.skip(lo as int));
    }
    let mut hi: usize = b.len();
    while hi > lo && (b[hi - 1] == 32 || b[hi - 1] == 9 || b[hi - 1] == 10 || b[hi - 1] == 13
        || b[hi - 1] == 11 || b[hi - 1] == 12)
        invariant
            lo <= hi <= b.len(),
            forall|k: int| hi <= k < b.len() ==> is_ascii_space(#[trigger] b@[k]),
        decreases hi,
    {
        hi = hi - 1;
    }
    let ghost t = b@.skip(lo as int);
    proof {
        assert forall|k: int| hi - lo <= k < t.len() implies is_ascii_space(#[trigger] t[k]) by {
            assert(t[k] == b@[k + lo]);
        }
        lemma_trim_end_take(t, hi - lo as int);
        if hi > lo {
            assert(t.take(hi - lo as int).last() == b@[hi - 1]);
        }
        assert(trim_end_ws(t.take(hi - lo as int)) == t.take(hi - lo as int));
        assert(t.take(hi - lo as int) =~= b@.subrange(lo as int, hi as int));
        assert(trim_ws(b@) == b@.subrange(lo as int, hi as int));
    }
    let mut dlo: usize = lo;
    if hi > lo && b[lo] == 43 {
        dlo = lo + 1;
    }
    let ghost d = iteration_digits(b@);
    proof {
        if hi > lo && b@[lo as int] == 43 {
            assert(b@.subrange(lo as int, hi as int).skip(1) =~= b@.subrange(
                dlo as int,
                hi as int,
            ));
        }
        assert(d == b@.subrange(dlo as int, hi as int));
    }
    if dlo == hi {
        return Err(ValidationError::NotANumber);
    }
    let mut j: usize = dlo;
    let mut val: u64 = 0;
    let mut too_big: bool = false;
    while j < hi
        invariant
            dlo <= j <= hi <= b.len(),
            d == b@.subrange(dlo as int, hi as int),
            d == iteration_digits(s.spec_bytes()),
            forall|k: int| dlo <= k < j ==> is_dec_digit(#[trigger] b@[k]),
            !too_big ==> val == dec_value(d.take(j - dlo as int)),
            too_big ==> dec_value(d.take(j - dlo as int)) > u64::MAX,
        decreases hi - j,
    {
        let c = b[j];
        if c < 48 || c > 57 {
            proof {
                assert(d[j - dlo as int] == c);
                assert(!all_dec_digits(d));
            }
            return Err(ValidationError::NotANumber);
        }
        proof {
            assert(d.take(j + 1 - dlo as int).drop_last() =~= d.take(j - dlo as int));
            assert(d.take(j + 1 - dlo as int).last() == b@[j as int]);
        }
        if too_big {
        } else {
            let wide: u128 = (val as u128) * 10 + ((c - 48) as u128);
            if wide > u64::MAX as u128 {
                too_big = true;
            } else {
                val = wide as u64;
            }
        }
        j = j + 1;
    }
    proof {
        assert(d.take(hi - dlo as int) =~= d);
        assert forall|k: int| 0 <= k < d.len() implies is_dec_digit(#[trigger] d[k]) by {
            assert(d[k] == b@[k + dlo]);
        }
    }
    if too_big {
        return Err(ValidationError::NotANumber);
    }
    if val < MIN_ITERATIONS || val > MAX_ITERATIONS {
        return Err(ValidationError::IterationOutOfRange);
    }
    Ok(val)
}

/// Everything that can go wrong between raw text and a finished run.
#[derive(Debug, Clone)]
pub enum RunError {
    /// The hex byte list could not be parsed.
    Parse(ParseError),
    /// The request was refused at the validation boundary.
    Validation(ValidationError),
}

/// The whole pipeline from raw text to a finished run: parse the hex byte
/// list, refuse an empty frame, parse and validate the iteration count, then
/// run the timed batch. Every failure is detected before any checksum work
/// starts, in that order.
pub fn calculate_crc(hex_text: &str, iterations_text: &str, use_optimized: bool) -> (r: Result<
    CrcResult,
    RunError,
>)
    ensures
        ({
            let hm = parse_hex_model(hex_text.spec_bytes());
            let im = iterations_model(iterations_text.spec_bytes());
            match hm {
                HexScan::BadToken(t) => r matches Err(RunError::Parse(ParseError::InvalidToken(tok)))
                    && tok@ == t,
                HexScan::TooMany => r matches Err(RunError::Parse(ParseError::TooManyBytes)),
                HexScan::Parsed(v) => if v.len() == 0 {
                    r matches Err(RunError::Validation(e)) && e == ValidationError::EmptyFrame
                } else {
                    match im {
                        Err(e) => r matches Err(RunError::Validation(e2)) && e2 == e,
                        Ok(_) => r matches Ok(res) && res.crc_value == crc16_of(v) && res.wf(),
                    }
                },
            }
        }),
{
    let data = match parse_hex_input(hex_text) {
        Ok(d) => d,
        Err(e) => {
            return Err(RunError::Parse(e));
        },
    };
    if data.len() == 0 {
        return Err(RunError::Validation(ValidationError::EmptyFrame));
    }
    let iterations = match parse_iterations(iterations_text) {
        Ok(n) => n,
        Err(e) => {
            return Err(RunError::Validation(e));
        },
    };
    match run_batch(data.as_slice(), iterations, use_optimized) {
        Ok(res) => Ok(res),
        Err(e) => Err(RunError::Validation(e)),
    }
}

/// Sum of a share list.
pub open spec fn sum_shares(s: Seq<u64>) -> int
    decreases s.len(),
{
    if s.len() == 0 {
        0
    } else {
        sum_shares(s.drop_last()) + s.last()
    }
}

/// Splits an iteration total into per-worker shares for a parallel run: one
/// share per worker, shares summing to the total, each share the quotient
/// rounded up for the first `total % workers` workers and down for the rest.
/// Every worker redundantly recomputes the same checksum, so the split only
/// balances load, never changes any result.
pub fn partition_iterations(iterations: u64, workers: usize) -> (parts: Vec<u64>)
    requires
        1 <= workers,
        iterations <= 1_000_000_000,
    ensures
        parts@.len() == workers,
        sum_shares(parts@) == iterations,
        forall|j: int|
            0 <= j < workers ==> parts@[j] == iterations as int / workers as int + (
            if j < iterations as int % workers as int {
                1int
            } else {
                0int
            }),
{
    let w64: u64 = workers as u64;
    let base: u64 = iterations / w64;
    let rem: u64 = iterations % w64;
    proof {
        vstd::arithmetic::div_mod::lemma_div_nonincreasing(iterations as int, workers as int);
    }
    let mut parts: Vec<u64> = Vec::new();
    let mut k: usize = 0;
    while k < workers
        invariant
            k <= workers,
            1 <= workers,
            w64 == workers as u64,
            base == iterations as int / workers as int,
            rem == iterations as int % workers as int,
            base <= 1_000_000_000,
            parts@.len() == k,
            forall|j: int|
                0 <= j < k ==> parts@[j] == base + (
                if j < rem {
                    1int
                } else {
                    0int
                }),
            sum_shares(parts@) == k * base + (if k <= rem {
                k as int
            } else {
                rem as int
            }),
        decreases workers - k,
    {
        let share: u64 = if (k as u64) < rem {
            base + 1
        } else {
            base
        };
        let ghost old_parts = parts@;
        parts.push(share);
        proof {
            assert(parts@.drop_last() =~= old_parts);
            assert((k + 1) * base == k * base + base) by (nonlinear_arith);
        }
        k = k + 1;
    }
    proof {
        vstd::arithmetic::div_mod::lemma_fundamental_div_mod(iterations as int, workers as int);
        vstd::arithmetic::div_mod::lemma_mod_division_less_than_divisor(
            iterations as int,
            workers as int,
        );
        assert(workers as int * base == base * workers as int) by (nonlinear_arith);
        assert(k * base == workers * base);
    }
    parts
}

} // verus!
