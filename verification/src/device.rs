//! Device and process facts read from the platform, turned into records.
//!
//! The platform is asked for raw values (registry properties of a GPU, the
//! name of a process, the process list); these functions decide what the
//! monitor reports from them.

use crate::collector::CollectorError;
use crate::text::{push_char, push_signed_decimal, signed_decimal};
use crate::types::DeviceGpuInfo;
use vstd::prelude::*;
use vstd::string::StrSliceExecFns;

verus! {

/// The raw properties of one GPU registry entry.
#[derive(Debug, Clone)]
pub struct DeviceProperties {
    /// The registry entry name (e.g. "AGXAcceleratorG14X").
    pub entry_name: String,
    /// The top-level "model" property (e.g. "Apple M1 Pro").
    pub model: Option<String>,
    /// The top-level "IOClass" property.
    pub io_class: Option<String>,
    /// Bit pattern of the "Device Utilization %" statistic.
    pub utilization_bits: Option<u64>,
    /// The "vramTotalBytes" statistic (discrete GPUs).
    pub vram_total_bytes: Option<u64>,
    /// The "Allocated system memory" statistic (unified memory).
    pub allocated_system_memory: Option<u64>,
    /// The "vramUsedBytes" statistic (discrete GPUs).
    pub vram_used_bytes: Option<u64>,
    /// The "In use system memory" statistic (unified memory).
    pub in_use_system_memory: Option<u64>,
}

/// The first of two optional values that is present.
pub open spec fn first_present<T>(a: Option<T>, b: Option<T>) -> Option<T> {
    match a {
        Some(x) => Some(x),
        None => b,
    }
}

/// The device name: the model, else the registry class, else the entry name.
pub open spec fn device_name(p: DeviceProperties) -> Seq<char> {
    match p.model {
        Some(m) => m@,
        None => match p.io_class {
            Some(c) => c@,
            None => p.entry_name@,
        },
    }
}

fn first_present_u64(a: Option<u64>, b: Option<u64>) -> (r: Option<u64>)
    ensures
        r == first_present(a, b),
{
    match a {
        Some(x) => Some(x),
        None => b,
    }
}

/// The device record of a registry entry: named by its model, else its
/// class, else its entry name; memory figures from the discrete-GPU
/// statistics, else from the unified-memory ones.
pub fn extract_device_info(props: DeviceProperties) -> (d: DeviceGpuInfo)
    ensures
        d.name@ == device_name(props),
        d.gpu_percent_bits == props.utilization_bits,
        d.vram_total_bytes == first_present(props.vram_total_bytes, props.allocated_system_memory),
        d.vram_used_bytes == first_present(props.vram_used_bytes, props.in_use_system_memory),
{
    let name = match props.model {
        Some(m) => m,
        None => match props.io_class {
            Some(c) => c,
            None => props.entry_name,
        },
    };
    DeviceGpuInfo {
        name,
        gpu_percent_bits: props.utilization_bits,
        vram_total_bytes: first_present_u64(props.vram_total_bytes, props.allocated_system_memory),
        vram_used_bytes: first_present_u64(props.vram_used_bytes, props.in_use_system_memory),
    }
}

/// A signed platform count read as unsigned: negative values become 0.
pub fn nonnegative(v: i64) -> (r: u64)
    ensures
        r as int == (if v < 0 {
            0
        } else {
            v as int
        }),
{
    if v < 0 {
        0
    } else {
        v as u64
    }
}

/// The name shown for a process whose name cannot be read.
pub open spec fn placeholder_name(pid: i32) -> Seq<char> {
    seq!['<'] + signed_decimal(pid as int) + seq!['>']
}

/// The name of process `pid`: the name read from the platform, or "<pid>"
/// when none could be read.
pub fn process_name(pid: i32, read: Option<String>) -> (s: String)
    ensures
        s@ == match read {
            Some(n) => n@,
            None => placeholder_name(pid),
        },
{
    match read {
        Some(n) => n,
        None => {
            let mut s = String::new();
            push_char(&mut s, '<');
            push_signed_decimal(&mut s, pid as i64);
            push_char(&mut s, '>');
            assert(s@ =~= placeholder_name(pid));
            s
        },
    }
}

/// The positive PIDs among the first `count` entries of `buf` (PID 0 is
/// the kernel task), in order.
pub open spec fn listed_pids(buf: Seq<i32>, count: nat) -> Seq<i32>
    decreases buf.len(),
{
    if buf.len() == 0 {
        seq![]
    } else {
        let prev = listed_pids(buf.drop_last(), count);
        if buf.len() <= count && buf.last() > 0 {
            prev.push(buf.last())
        } else {
            prev
        }
    }
}

/// The PIDs reported by a process listing that filled `returned_bytes`
/// bytes of `buf`: the positive ones among the first `returned_bytes / 4`
/// entries.
pub fn pids_from_listing(buf: &Vec<i32>, returned_bytes: usize) -> (r: Vec<i32>)
    ensures
        r@ == listed_pids(buf@, (returned_bytes / 4) as nat),
{
    let count = returned_bytes / 4;
    let mut r: Vec<i32> = Vec::new();
    let mut i: usize = 0;
    while i < buf.len()
        invariant
            i <= buf@.len(),
            r@ == listed_pids(buf@.take(i as int), count as nat),
        decreases buf.len() - i,
    {
        assert(buf@.take(i + 1).drop_last() =~= buf@.take(i as int));
        if i < count && buf[i] > 0 {
            r.push(buf[i]);
        }
        i = i + 1;
    }
    assert(buf@.take(buf@.len() as int) =~= buf@);
    r
}

/// The number of PID slots to allocate for a listing that needs
/// `needed_bytes` bytes: room for that many PIDs and 32 more.
pub fn pid_buffer_slots(needed_bytes: usize) -> (n: usize)
    requires
        needed_bytes > 0,
    ensures
        n == needed_bytes / 4 + 32,
{
    needed_bytes / 4 + 32
}


/// The buffer size that a sizing call of the process listing reported, or
/// the error when it reported no positive size.
pub fn listing_size(needed: i32) -> (r: Result<usize, CollectorError>)
    ensures
        needed > 0 ==> r == Ok::<usize, CollectorError>(needed as usize),
        needed <= 0 ==> (r matches Err(CollectorError::ProcessList(m)) && m@
            == "proc_listpids sizing call returned "@ + signed_decimal(needed as int)),
{
    if needed > 0 {
        Ok(needed as usize)
    } else {
        let mut m = String::from_str("proc_listpids sizing call returned ");
        push_signed_decimal(&mut m, needed as i64);
        Err(CollectorError::ProcessList(m))
    }
}

/// The PIDs of a process listing that returned `returned` (a byte count
/// when positive) into `buf`, or the error when it returned no bytes.
pub fn listing_pids(buf: &Vec<i32>, returned: i32) -> (r: Result<Vec<i32>, CollectorError>)
    ensures
        returned > 0 ==> (r matches Ok(v) && v@ == listed_pids(buf@, (returned / 4) as nat)),
        returned <= 0 ==> (r matches Err(CollectorError::ProcessList(m)) && m@
            == "proc_listpids returned "@ + signed_decimal(returned as int)),
{
    if returned > 0 {
        Ok(pids_from_listing(buf, returned as usize))
    } else {
        let mut m = String::from_str("proc_listpids returned ");
        push_signed_decimal(&mut m, returned as i64);
        Err(CollectorError::ProcessList(m))
    }
}

/// The length of a NUL-terminated string in `buf`: the bytes before the
/// first zero byte, or the whole buffer when it has none.
pub fn c_string_len(buf: &Vec<u8>) -> (n: usize)
    ensures
        n <= buf@.len(),
        forall|k: int| 0 <= k < n ==> buf@[k] != 0,
        n < buf@.len() ==> buf@[n as int] == 0,
{
    let mut i: usize = 0;
    while i < buf.len()
        invariant
            i <= buf@.len(),
            forall|k: int| 0 <= k < i ==> buf@[k] != 0,
        decreases buf.len() - i,
    {
        if buf[i] == 0 {
            return i;
        }
        i = i + 1;
    }
    i
}


// ── GPU client owners ───────────────────────────────────────────────────────

/// A decimal digit character.
pub open spec fn is_digit(c: char) -> bool {
    '0' <= c && c <= '9'
}

/// The number of digit characters at the start of `s`.
pub open spec fn leading_digit_count(s: Seq<char>) -> nat
    decreases s.len(),
{
    if s.len() > 0 && is_digit(s[0]) {
        1 + leading_digit_count(s.drop_first())
    } else {
        0
    }
}

/// The value of a sequence of decimal digits.
pub open spec fn digits_value(d: Seq<char>) -> nat
    decreases d.len(),
{
    if d.len() == 0 {
        0
    } else {
        digits_value(d.drop_last()) * 10 + ((d.last() as u32) - ('0' as u32)) as nat
    }
}

/// The process that created a GPU client, from the client's creator
/// description "pid <number>, <name>": the number after "pid " when it is
/// present and fits a PID.
pub open spec fn creator_pid_of(s: Seq<char>) -> Option<i32> {
    let rest = s.skip(4);
    let n = leading_digit_count(rest);
    if s.len() >= 4 && s[0] == 'p' && s[1] == 'i' && s[2] == 'd' && s[3] == ' ' && n > 0
        && digits_value(rest.take(n as int)) <= 2147483647 {
        Some(digits_value(rest.take(n as int)) as i32)
    } else {
        None
    }
}

proof fn lemma_leading_digits(s: Seq<char>, i: int)
    requires
        0 <= i <= s.len(),
        forall|k: int| 0 <= k < i ==> is_digit(s[k]),
    ensures
        leading_digit_count(s) >= i,
        i == s.len() || !is_digit(s[i]) ==> leading_digit_count(s) == i,
    decreases i,
{
    if i > 0 {
        lemma_leading_digits(s.drop_first(), i - 1);
    }
}

proof fn lemma_leading_digit_prefix(s: Seq<char>)
    ensures
        leading_digit_count(s) <= s.len(),
        forall|k: int| 0 <= k < leading_digit_count(s) ==> is_digit(s[k]),
    decreases s.len(),
{
    if s.len() > 0 && is_digit(s[0]) {
        lemma_leading_digit_prefix(s.drop_first());
        assert forall|k: int| 0 <= k < leading_digit_count(s) implies is_digit(s[k]) by {
            if k > 0 {
                assert(s[k] == s.drop_first()[k - 1]);
            }
        }
    }
}

fn is_digit_char(c: char) -> (b: bool)
    ensures
        b == is_digit(c),
{
    '0' <= c && c <= '9'
}

/// The PID in a GPU client's creator description, if it has one.
pub fn creator_pid(s: &str) -> (r: Option<i32>)
    ensures
        r == creator_pid_of(s@),
{
    let len = s.unicode_len();
    if len < 4 || s.get_char(0) != 'p' || s.get_char(1) != 'i' || s.get_char(2) != 'd' || s.get_char(3)
        != ' ' {
        return None;
    }
    let ghost rest = s@.skip(4);
    let mut i: usize = 4;
    let mut value: u64 = 0;
    while i < len && is_digit_char(s.get_char(i))
        invariant
            4 <= i <= len,
            len == s@.len(),
            rest == s@.skip(4),
            forall|k: int| 0 <= k < i - 4 ==> is_digit(rest[k]),
            value == digits_value(rest.take(i - 4)),
            value <= 2147483647,
        decreases len - i,
    {
        let c = s.get_char(i);
        assert(rest[i - 4] == c);
        assert(rest.take(i - 3).drop_last() =~= rest.take(i - 4));
        assert(rest.take(i - 3).last() == c);
        let d = (c as u32 - '0' as u32) as u64;
        let next = value * 10 + d;
        if next > 2147483647 {
            proof {
                lemma_leading_digits(rest, i - 3);
                lemma_leading_digit_prefix(rest);
                lemma_digits_grow(rest, i - 3, leading_digit_count(rest) as int);
            }
            return None;
        }
        value = next;
        i = i + 1;
    }
    proof {
        if i < len {
            assert(rest[i - 4] == s@[i as int]);
        }
        lemma_leading_digits(rest, i - 4);
    }
    if i == 4 {
        return None;
    }
    assert(rest.take(i - 4) == rest.take(leading_digit_count(rest) as int));
    Some(value as i32)
}

proof fn lemma_digits_grow(s: Seq<char>, a: int, b: int)
    requires
        0 <= a <= b <= s.len(),
        forall|k: int| 0 <= k < b ==> is_digit(s[k]),
    ensures
        digits_value(s.take(a)) <= digits_value(s.take(b)),
    decreases b - a,
{
    if a < b {
        lemma_digits_grow(s, a, b - 1);
        assert(s.take(b).drop_last() =~= s.take(b - 1));
        assert(is_digit(s[b - 1]));
        assert(s.take(b).last() == s[b - 1]);
    }
}


/// The sum of GPU times, saturating at the largest representable count.
pub open spec fn saturating_total(times: Seq<u64>) -> nat
    decreases times.len(),
{
    if times.len() == 0 {
        0
    } else {
        let t: nat = saturating_total(times.drop_last()) + times.last() as nat;
        if t > u64::MAX {
            u64::MAX as nat
        } else {
            t
        }
    }
}

/// The total GPU time of a client over its usage records.
pub fn total_gpu_time(times: &Vec<u64>) -> (t: u64)
    ensures
        t as nat == saturating_total(times@),
{
    let mut total: u64 = 0;
    let mut i: usize = 0;
    while i < times.len()
        invariant
            i <= times@.len(),
            total as nat == saturating_total(times@.take(i as int)),
        decreases times.len() - i,
    {
        assert(times@.take(i + 1).drop_last() =~= times@.take(i as int));
        total = total.saturating_add(times[i]);
        i = i + 1;
    }
    assert(times@.take(times@.len() as int) =~= times@);
    total
}

} // verus!
