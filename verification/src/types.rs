//! Public data types for GPU process monitoring output, and the short
//! human-readable renderings of byte counts and durations.

use crate::text::{
    decimal, digit, push_char, push_decimal, push_tenths, round_half_even, round_half_even_u128,
    tenths_text,
};
use vstd::prelude::*;

verus! {

// ── sort key ────────────────────────────────────────────────────────────────

/// Sort key for process output ordering.
#[derive(Debug, Clone, Copy, PartialEq, Eq, Structural, Default)]
pub enum SortKey {
    /// Sort by GPU utilization percentage (highest first).
    #[default]
    GpuPercent,
    /// Sort by cumulative GPU time (highest first).
    GpuTime,
    /// Sort by VRAM usage (highest first).
    Vram,
    /// Sort by process ID (ascending).
    Pid,
}

/// The lower-case form of a string as `str::to_lowercase` computes it
/// (Unicode lower-casing, independent of locale).
pub uninterp spec fn lowercase(s: Seq<char>) -> Seq<char>;

/// ASCII lower-casing of one character: 'A'..='Z' become 'a'..='z'.
pub open spec fn ascii_lower_char(c: char) -> char {
    if 'A' <= c && c <= 'Z' {
        ((c as u32) + 32) as char
    } else {
        c
    }
}

/// ASCII lower-casing of a whole string.
pub open spec fn ascii_lowercase(s: Seq<char>) -> Seq<char> {
    Seq::new(s.len(), |i: int| ascii_lower_char(s[i]))
}

/// True when every character of `s` is ASCII.
pub open spec fn all_ascii(s: Seq<char>) -> bool {
    forall|i: int| 0 <= i < s.len() ==> (s[i] as u32) < 128
}

/// Lower-cases `s`.
/// Calls `str::to_lowercase`. Its result depends on the string alone and is
/// named `lowercase`; the contract also states what the Unicode tables give
/// for ASCII input: 'A'..='Z' map to 'a'..='z' and every other ASCII
/// character stays as it is.
#[verifier::external_body]
fn to_lowercase(s: &str) -> (r: String)
    ensures
        r@ == lowercase(s@),
        all_ascii(s@) ==> r@ == ascii_lowercase(s@),
{
    s.to_lowercase()
}

/// The sort key that an already lower-cased name selects, if any.
pub open spec fn sort_key_named(name: Seq<char>) -> Option<SortKey> {
    if name == "gpu"@ || name == "gpu-percent"@ || name == "gpu_percent"@ {
        Some(SortKey::GpuPercent)
    } else if name == "time"@ || name == "gpu-time"@ || name == "gpu_time"@ {
        Some(SortKey::GpuTime)
    } else if name == "vram"@ || name == "mem"@ || name == "memory"@ {
        Some(SortKey::Vram)
    } else if name == "pid"@ {
        Some(SortKey::Pid)
    } else {
        None
    }
}

/// The message that rejects an unknown (lower-cased) sort key name.
pub open spec fn unknown_sort_key_message(name: Seq<char>) -> Seq<char> {
    "Unknown sort key: "@ + name + ". Valid values: gpu, time, vram, pid"@
}

/// What parsing `s` as a sort key gives: matching is on the lower-cased
/// text, and an unknown name is reported with its lower-cased form.
pub open spec fn sort_key_parse(s: Seq<char>) -> Result<SortKey, Seq<char>> {
    match sort_key_named(lowercase(s)) {
        Some(k) => Ok(k),
        None => Err(unknown_sort_key_message(lowercase(s))),
    }
}

/// What parsing an all-ASCII `s` as a sort key gives: matching is on its
/// ASCII lower-case form ("GPU" selects the GPU percentage).
pub open spec fn sort_key_parse_ascii(s: Seq<char>) -> Result<SortKey, Seq<char>> {
    match sort_key_named(ascii_lowercase(s)) {
        Some(k) => Ok(k),
        None => Err(unknown_sort_key_message(ascii_lowercase(s))),
    }
}

fn is_named(name: &String, candidate: &str) -> (b: bool)
    ensures
        b == (name@ == candidate@),
{
    let c = String::from_str(candidate);
    *name == c
}

impl SortKey {
    /// Parses a sort key name, ignoring case.
    pub fn parse(s: &str) -> (r: Result<SortKey, String>)
        ensures
            match r {
                Ok(k) => sort_key_parse(s@) == Ok::<SortKey, Seq<char>>(k),
                Err(msg) => sort_key_parse(s@) == Err::<SortKey, Seq<char>>(msg@),
            },
            all_ascii(s@) ==> match r {
                Ok(k) => sort_key_parse_ascii(s@) == Ok::<SortKey, Seq<char>>(k),
                Err(msg) => sort_key_parse_ascii(s@) == Err::<SortKey, Seq<char>>(msg@),
            },
    {
        let lower = to_lowercase(s);
        if is_named(&lower, "gpu") || is_named(&lower, "gpu-percent") || is_named(
            &lower,
            "gpu_percent",
        ) {
            Ok(SortKey::GpuPercent)
        } else if is_named(&lower, "time") || is_named(&lower, "gpu-time") || is_named(
            &lower,
            "gpu_time",
        ) {
            Ok(SortKey::GpuTime)
        } else if is_named(&lower, "vram") || is_named(&lower, "mem") || is_named(
            &lower,
            "memory",
        ) {
            Ok(SortKey::Vram)
        } else if is_named(&lower, "pid") {
            Ok(SortKey::Pid)
        } else {
            let mut msg = String::from_str("Unknown sort key: ");
            msg.append(lower.as_str());
            msg.append(". Valid values: gpu, time, vram, pid");
            assert(msg@ =~= unknown_sort_key_message(lowercase(s@)));
            Err(msg)
        }
    }
}

impl std::str::FromStr for SortKey {
    type Err = String;

    fn from_str(s: &str) -> (r: Result<SortKey, String>)
        ensures
            match r {
                Ok(k) => sort_key_parse(s@) == Ok::<SortKey, Seq<char>>(k),
                Err(msg) => sort_key_parse(s@) == Err::<SortKey, Seq<char>>(msg@),
            },
            all_ascii(s@) ==> match r {
                Ok(k) => sort_key_parse_ascii(s@) == Ok::<SortKey, Seq<char>>(k),
                Err(msg) => sort_key_parse_ascii(s@) == Err::<SortKey, Seq<char>>(msg@),
            },
    {
        SortKey::parse(s)
    }
}

// ── byte counts ─────────────────────────────────────────────────────────────

/// `2^k`.
pub open spec fn two_pow(k: nat) -> nat
    decreases k,
{
    if k == 0 {
        1
    } else {
        2 * two_pow((k - 1) as nat)
    }
}

/// How many low bits of `b` do not fit in the 53-bit significand of a
/// double: the number of halvings that bring `b` below `2^53`.
pub open spec fn excess_bits(b: nat) -> nat
    decreases b,
{
    if b < 9007199254740992 {
        0
    } else {
        1 + excess_bits(b / 2)
    }
}

/// The value of `b as f64`: `b` rounded to 53 significant bits, ties to
/// even (exact below `2^53`).
pub open spec fn f64_nearest(b: nat) -> nat {
    let k = excess_bits(b);
    round_half_even(b, two_pow(k)) * two_pow(k)
}

/// The text of a byte count: "-" when unknown, whole bytes below 1 KiB,
/// otherwise the count in KiB, MiB or GiB with one decimal (the quotient
/// of the count as a double and the unit, rounded to tenths with ties to
/// even).
pub open spec fn bytes_text(bytes: Option<u64>) -> Seq<char> {
    match bytes {
        None => seq!['-'],
        Some(b) => if b < 1024 {
            decimal(b as nat).push('B')
        } else if b < 1048576 {
            tenths_text(round_half_even((10 * b) as nat, 1024)).push('K')
        } else if b < 1073741824 {
            tenths_text(round_half_even((10 * b) as nat, 1048576)).push('M')
        } else {
            tenths_text(round_half_even(10 * f64_nearest(b as nat), 1073741824)).push('G')
        },
    }
}

proof fn lemma_halving_step(b: nat, p: nat, x: nat)
    requires
        p > 0,
        x == b / p,
        x >= 2,
    ensures
        x / 2 == b / (p * 2),
        p * 2 <= b,
{
    vstd::arithmetic::div_mod::lemma_div_denominator(b as int, p as int, 2);
    assert(p * 2 <= b) by (nonlinear_arith)
        requires
            p > 0,
            x == b / p,
            x >= 2,
    ;
}

/// `b as f64` as an integer: `b` rounded to 53 significant bits.
fn f64_nearest_u64(b: u64) -> (f: u128)
    ensures
        f == f64_nearest(b as nat),
        f <= 2 * (b as nat) + 1,
{
    let mut x: u64 = b;
    let mut p: u128 = 1;
    let ghost mut k: nat = 0;
    while x >= 9007199254740992
        invariant
            x as nat == b as nat / p as nat,
            p as nat == two_pow(k),
            p >= 1,
            p <= b as nat + 1,
            excess_bits(b as nat) == k + excess_bits(x as nat),
        decreases x,
    {
        proof {
            lemma_halving_step(b as nat, p as nat, x as nat);
        }
        x = x / 2;
        p = p * 2;
        proof {
            k = k + 1;
        }
    }
    assert(excess_bits(x as nat) == 0);
    let r = round_half_even_u128(b as u128, p);
    assert(r * p <= 2 * (b as nat) + 1) by (nonlinear_arith)
        requires
            r <= b as nat / p as nat + 1,
            p >= 1,
            p <= b as nat + 1,
    ;
    r * p
}

/// Format a byte count as a short human-readable string (e.g. "128.5M").
pub fn format_bytes(bytes: Option<u64>) -> (s: String)
    ensures
        s@ == bytes_text(bytes),
{
    let mut s = String::new();
    match bytes {
        None => {
            push_char(&mut s, '-');
        },
        Some(b) => {
            if b < 1024 {
                push_decimal(&mut s, b);
                push_char(&mut s, 'B');
            } else if b < 1048576 {
                let t = round_half_even_u128(10 * (b as u128), 1024);
                push_tenths(&mut s, t as u64);
                push_char(&mut s, 'K');
            } else if b < 1073741824 {
                let t = round_half_even_u128(10 * (b as u128), 1048576);
                push_tenths(&mut s, t as u64);
                push_char(&mut s, 'M');
            } else {
                let f = f64_nearest_u64(b);
                let t = round_half_even_u128(10 * f, 1073741824);
                assert(t < 0x1_0000_0000_0000) by (nonlinear_arith)
                    requires
                        t <= (10 * f) / 1073741824 + 1,
                        f <= 2 * 0x1_0000_0000_0000_0000,
                ;
                push_tenths(&mut s, t as u64);
                push_char(&mut s, 'G');
            }
        },
    }
    assert(s@ =~= bytes_text(bytes));
    s
}

// ── durations ───────────────────────────────────────────────────────────────

/// For `1000 <= ms < 64000`: `2^(52 - e)` where `2^e <= ms / 1000 < 2^(e+1)`,
/// the scale at which the double nearest to `ms / 1000` has an integer
/// 53-bit significand.
pub open spec fn seconds_scale(ms: nat) -> nat {
    if ms < 2000 {
        4503599627370496
    } else if ms < 4000 {
        2251799813685248
    } else if ms < 8000 {
        1125899906842624
    } else if ms < 16000 {
        562949953421312
    } else if ms < 32000 {
        281474976710656
    } else {
        140737488355328
    }
}

/// For `1000 <= ms < 64000`: `ms / 1000` in seconds as tenths, computed as
/// the double nearest to `ms / 1000` (significand rounded with ties to
/// even) rounded to one decimal with ties to even.
pub open spec fn seconds_tenths(ms: nat) -> nat {
    let scale = seconds_scale(ms);
    let significand = round_half_even(ms * scale, 1000);
    round_half_even(10 * significand, scale)
}

/// The text of a duration given in nanoseconds: whole milliseconds below a
/// second, seconds with one decimal below a minute, then minutes and
/// seconds below an hour, then hours and minutes.
pub open spec fn duration_text(ns: u64) -> Seq<char> {
    let ms = ns / 1_000_000;
    if ms < 1_000 {
        decimal(ms as nat) + seq!['m', 's']
    } else if ms < 60_000 {
        tenths_text(seconds_tenths(ms as nat)).push('s')
    } else {
        let minutes = ms / 60_000;
        let secs = (ms % 60_000) / 1_000;
        if minutes < 60 {
            decimal(minutes as nat).push('m') + decimal(secs as nat).push('s')
        } else {
            decimal((minutes / 60) as nat).push('h') + decimal((minutes % 60) as nat).push('m')
        }
    }
}

fn seconds_tenths_exec(ms: u64) -> (t: u64)
    requires
        1000 <= ms < 64000,
    ensures
        t as nat == seconds_tenths(ms as nat),
{
    let scale: u128 = if ms < 2000 {
        4503599627370496
    } else if ms < 4000 {
        2251799813685248
    } else if ms < 8000 {
        1125899906842624
    } else if ms < 16000 {
        562949953421312
    } else if ms < 32000 {
        281474976710656
    } else {
        140737488355328
    };
    assert((ms as u128) * scale < 0x1_0000_0000_0000_0000_0000) by (nonlinear_arith)
        requires
            ms < 64000,
            scale <= 4503599627370496,
    ;
    let significand = round_half_even_u128((ms as u128) * scale, 1000);
    assert(significand < 0x1_0000_0000_0000_0000_0000) by (nonlinear_arith)
        requires
            significand <= ((ms as u128) * scale) / 1000 + 1,
            (ms as u128) * scale < 0x1_0000_0000_0000_0000_0000,
    ;
    let t = round_half_even_u128(10 * significand, scale);
    assert(t < 0x1_0000_0000) by (nonlinear_arith)
        requires
            t <= (10 * significand) / (scale as int) + 1,
            significand <= ((ms as u128) * scale) / 1000 + 1,
            ms < 64000,
            scale >= 140737488355328,
    ;
    t as u64
}

/// Format a duration in nanoseconds as a short human-readable string
/// (e.g. "2m30s").
pub fn format_duration_ns(ns: u64) -> (s: String)
    ensures
        s@ == duration_text(ns),
{
    let mut s = String::new();
    let ms = ns / 1_000_000;
    if ms == 0 {
        push_char(&mut s, '0');
        push_char(&mut s, 'm');
        push_char(&mut s, 's');
    } else if ms < 1_000 {
        push_decimal(&mut s, ms);
        push_char(&mut s, 'm');
        push_char(&mut s, 's');
    } else if ms < 60_000 {
        push_tenths(&mut s, seconds_tenths_exec(ms));
        push_char(&mut s, 's');
    } else {
        let minutes = ms / 60_000;
        let secs = (ms % 60_000) / 1_000;
        if minutes < 60 {
            push_decimal(&mut s, minutes);
            push_char(&mut s, 'm');
            push_decimal(&mut s, secs);
            push_char(&mut s, 's');
        } else {
            let hours = minutes / 60;
            let mins = minutes % 60;
            push_decimal(&mut s, hours);
            push_char(&mut s, 'h');
            push_decimal(&mut s, mins);
            push_char(&mut s, 'm');
        }
    }
    assert(s@ =~= duration_text(ns));
    s
}


// ── process and device records ──────────────────────────────────────────────

/// Per-process GPU statistics, computed from two samples.
///
/// The utilization percentage is a double computed outside this crate from
/// the integer deltas of `sampling::GpuShare`; it is carried here as its
/// IEEE-754 bit pattern. For the non-negative, finite values that the
/// computation yields, ordering the bit patterns as unsigned integers orders
/// the percentages numerically.
#[derive(Debug, Clone, PartialEq, Eq)]
pub struct GpuProcessInfo {
    /// Process ID.
    pub pid: i32,
    /// Process name.
    pub name: String,
    /// Cumulative GPU time used since process start, in nanoseconds.
    pub gpu_time_ns: u64,
    /// Bit pattern of the GPU utilization during the sample interval
    /// (a percentage between 0.0 and 100.0 for a single engine).
    pub gpu_percent_bits: u64,
    /// GPU / graphics memory footprint in bytes, if available.
    pub vram_bytes: Option<u64>,
}

impl GpuProcessInfo {
    /// Format VRAM as a short human-readable string (e.g. "128.5M").
    pub fn vram_human(&self) -> (s: String)
        ensures
            s@ == bytes_text(self.vram_bytes),
    {
        format_bytes(self.vram_bytes)
    }

    /// Format GPU time as a short human-readable string (e.g. "2m30s").
    pub fn gpu_time_human(&self) -> (s: String)
        ensures
            s@ == duration_text(self.gpu_time_ns),
    {
        format_duration_ns(self.gpu_time_ns)
    }
}

/// Device-level GPU statistics.
///
/// The device-wide utilization percentage is a double read from the
/// platform; it is carried here as its IEEE-754 bit pattern.
#[derive(Debug, Clone, PartialEq, Eq, Default)]
pub struct DeviceGpuInfo {
    /// Renderer / GPU model name (e.g. "Apple M3 Max").
    pub name: String,
    /// Bit pattern of the device-wide GPU utilization percentage, if available.
    pub gpu_percent_bits: Option<u64>,
    /// Total VRAM / GPU-accessible memory in bytes, if reported.
    pub vram_total_bytes: Option<u64>,
    /// In-use VRAM in bytes, if reported.
    pub vram_used_bytes: Option<u64>,
}

/// Top-level output bundle: everything one run collects.
#[derive(Debug, Clone, PartialEq, Eq)]
pub struct GpuOutput {
    /// Unix timestamp of the second sample (milliseconds).
    pub timestamp_ms: u64,
    /// Milliseconds between the two samples used to compute GPU%.
    pub sample_interval_ms: u64,
    /// Per-process GPU information.
    pub processes: Vec<GpuProcessInfo>,
    /// Device-level GPU info (one entry per GPU).
    pub devices: Vec<DeviceGpuInfo>,
}

} // verus!
