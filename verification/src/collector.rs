//! The decisions of a sampling run: which process to seed when a PID was
//! asked for, which processes to keep, and in which order to report them.
//!
//! A run takes a snapshot, seeds the requested PID when the snapshot lacks
//! it, waits for the interval, takes a second snapshot (seeded likewise),
//! computes per-process activity, keeps only the requested PID when one was
//! given, and sorts.

use crate::sampling::RawSample;
use crate::text::{push_signed_decimal, signed_decimal};
use crate::types::{DeviceGpuInfo, GpuOutput, GpuProcessInfo, SortKey};
use vstd::prelude::*;

verus! {

/// Errors of a sampling run.
#[derive(Debug, Clone, PartialEq, Eq)]
pub enum CollectorError {
    ProcessList(String),
    PermissionDenied { pid: i32 },
    GpuQuery { detail: String },
}

/// The human-readable text of a collector error.
pub open spec fn collector_error_text(e: CollectorError) -> Seq<char> {
    match e {
        CollectorError::ProcessList(s) => "Failed to enumerate processes: "@ + s@,
        CollectorError::PermissionDenied { pid } => "Permission denied for PID "@ + signed_decimal(
            pid as int,
        ),
        CollectorError::GpuQuery { detail } => "GPU query failed: "@ + detail@,
    }
}

impl CollectorError {
    /// The human-readable text of this error.
    pub fn message(&self) -> (s: String)
        ensures
            s@ == collector_error_text(*self),
    {
        match self {
            CollectorError::ProcessList(detail) => {
                let mut s = String::from_str("Failed to enumerate processes: ");
                s.append(detail.as_str());
                s
            },
            CollectorError::PermissionDenied { pid } => {
                let mut s = String::from_str("Permission denied for PID ");
                push_signed_decimal(&mut s, *pid as i64);
                s
            },
            CollectorError::GpuQuery { detail } => {
                let mut s = String::from_str("GPU query failed: ");
                s.append(detail.as_str());
                s
            },
        }
    }
}

// ── seeding ─────────────────────────────────────────────────────────────────

/// Some sample of `samples` belongs to process `pid`.
pub open spec fn has_pid(samples: Seq<RawSample>, pid: i32) -> bool {
    exists|i: int| 0 <= i < samples.len() && samples[i].pid == pid
}

/// The PID to seed into a snapshot: the requested PID when the snapshot
/// has no sample of it.
pub open spec fn pid_to_seed(samples: Seq<RawSample>, pid_filter: Option<i32>) -> Option<i32> {
    match pid_filter {
        Some(pid) => if has_pid(samples, pid) {
            None
        } else {
            Some(pid)
        },
        None => None,
    }
}

/// The PID whose zero-GPU-time sample must be added to `samples`, if any.
pub fn seed_needed(samples: &Vec<RawSample>, pid_filter: Option<i32>) -> (r: Option<i32>)
    ensures
        r == pid_to_seed(samples@, pid_filter),
{
    match pid_filter {
        None => None,
        Some(pid) => {
            let mut i: usize = 0;
            while i < samples.len()
                invariant
                    i <= samples@.len(),
                    pid_filter == Some(pid),
                    forall|k: int| 0 <= k < i ==> samples@[k].pid != pid,
                decreases samples.len() - i,
            {
                if samples[i].pid == pid {
                    assert(samples@[i as int].pid == pid);
                    assert(has_pid(samples@, pid));
                    return None;
                }
                i = i + 1;
            }
            Some(pid)
        },
    }
}

// ── filtering by PID ────────────────────────────────────────────────────────

/// The processes of `s` with process ID `pid`, in order.
pub open spec fn only_pid(s: Seq<GpuProcessInfo>, pid: i32) -> Seq<GpuProcessInfo>
    decreases s.len(),
{
    if s.len() == 0 {
        seq![]
    } else {
        let prev = only_pid(s.drop_last(), pid);
        if s.last().pid == pid {
            prev.push(s.last())
        } else {
            prev
        }
    }
}

/// The processes kept under an optional PID filter.
pub open spec fn kept(s: Seq<GpuProcessInfo>, pid_filter: Option<i32>) -> Seq<GpuProcessInfo> {
    match pid_filter {
        Some(pid) => only_pid(s, pid),
        None => s,
    }
}

/// Keep only the processes with process ID `pid`, in their order.
pub fn retain_pid(processes: &mut Vec<GpuProcessInfo>, pid: i32)
    ensures
        final(processes)@ == only_pid(old(processes)@, pid),
{
    let mut input: Vec<GpuProcessInfo> = Vec::new();
    std::mem::swap(&mut input, processes);
    let ghost orig = input@;
    let total = input.len();
    assert(orig.len() == total);
    let mut out: Vec<GpuProcessInfo> = Vec::new();
    let mut done: usize = 0;
    while input.len() > 0
        invariant
            orig.len() <= usize::MAX,
            done + input@.len() == orig.len(),
            input@ == orig.skip(done as int),
            out@ == only_pid(orig.take(done as int), pid),
        decreases input@.len(),
    {
        let p = input.remove(0);
        assert(p == orig[done as int]);
        assert(orig.take(done + 1).drop_last() =~= orig.take(done as int));
        assert(input@ =~= orig.skip(done + 1));
        if p.pid == pid {
            out.push(p);
        }
        done = done + 1;
    }
    assert(orig.take(orig.len() as int) =~= orig);
    *processes = out;
}

// ── ordering ────────────────────────────────────────────────────────────────

/// The numeric order of a double given by its IEEE-754 bit pattern: with
/// the sign bit clear, the pattern itself; with it set, the negated
/// magnitude bits. For any two doubles that are not NaN, the first is less
/// than the second exactly when its key is less, and +0.0 and -0.0 both
/// have key 0.
pub open spec fn double_order_key(bits: u64) -> int {
    if bits >= 0x8000_0000_0000_0000 {
        -((bits - 0x8000_0000_0000_0000) as int)
    } else {
        bits as int
    }
}

/// The rank of a process under a sort key; processes are reported in
/// ascending rank. GPU%, GPU time and VRAM sort highest first (a process
/// with unknown VRAM after every known one); the PID sorts lowest first.
/// The GPU% is compared as a number, through `double_order_key`.
pub open spec fn sort_rank(p: GpuProcessInfo, sort: SortKey) -> int {
    match sort {
        SortKey::GpuPercent => -double_order_key(p.gpu_percent_bits),
        SortKey::GpuTime => -(p.gpu_time_ns as int),
        SortKey::Vram => match p.vram_bytes {
            Some(v) => -(v as int),
            None => 1,
        },
        SortKey::Pid => p.pid as int,
    }
}

/// The ranks of `s` never decrease.
pub open spec fn sorted_by(s: Seq<GpuProcessInfo>, sort: SortKey) -> bool {
    forall|i: int, j: int| 0 <= i < j < s.len() ==> sort_rank(s[i], sort) <= sort_rank(s[j], sort)
}

/// The processes of `s` of rank `r`, in order.
pub open spec fn of_rank(s: Seq<GpuProcessInfo>, sort: SortKey, r: int) -> Seq<GpuProcessInfo>
    decreases s.len(),
{
    if s.len() == 0 {
        seq![]
    } else {
        let prev = of_rank(s.drop_last(), sort, r);
        if sort_rank(s.last(), sort) == r {
            prev.push(s.last())
        } else {
            prev
        }
    }
}

/// `out` is `inp` sorted stably: ranks ascend, and the processes of each
/// rank keep their relative order.
pub open spec fn stable_sorted(out: Seq<GpuProcessInfo>, inp: Seq<GpuProcessInfo>, sort: SortKey) -> bool {
    &&& sorted_by(out, sort)
    &&& forall|r: int| #[trigger] of_rank(out, sort, r) == of_rank(inp, sort, r)
}

proof fn lemma_of_rank_append(a: Seq<GpuProcessInfo>, b: Seq<GpuProcessInfo>, sort: SortKey, r: int)
    ensures
        of_rank(a + b, sort, r) == of_rank(a, sort, r) + of_rank(b, sort, r),
    decreases b.len(),
{
    if b.len() == 0 {
        assert(a + b =~= a);
        assert(of_rank(a, sort, r) + of_rank(b, sort, r) =~= of_rank(a, sort, r));
    } else {
        lemma_of_rank_append(a, b.drop_last(), sort, r);
        assert((a + b).drop_last() =~= a + b.drop_last());
        assert((a + b).last() == b.last());
        if sort_rank(b.last(), sort) == r {
            assert(of_rank(a + b, sort, r) =~= of_rank(a, sort, r) + of_rank(b, sort, r));
        } else {
            assert(of_rank(a + b, sort, r) =~= of_rank(a, sort, r) + of_rank(b, sort, r));
        }
    }
}

proof fn lemma_of_rank_none(s: Seq<GpuProcessInfo>, sort: SortKey, r: int)
    requires
        forall|i: int| 0 <= i < s.len() ==> sort_rank(s[i], sort) != r,
    ensures
        of_rank(s, sort, r) == Seq::<GpuProcessInfo>::empty(),
    decreases s.len(),
{
    if s.len() > 0 {
        lemma_of_rank_none(s.drop_last(), sort, r);
    }
}

proof fn lemma_of_rank_single(x: GpuProcessInfo, sort: SortKey, r: int)
    ensures
        of_rank(seq![x], sort, r) == (if sort_rank(x, sort) == r {
            seq![x]
        } else {
            Seq::<GpuProcessInfo>::empty()
        }),
{
    assert(seq![x].drop_last() =~= Seq::<GpuProcessInfo>::empty());
    assert(seq![x].last() == x);
    assert(of_rank(Seq::<GpuProcessInfo>::empty(), sort, r) =~= Seq::<GpuProcessInfo>::empty());
    assert(of_rank(seq![x], sort, r) =~= (if sort_rank(x, sort) == r {
        seq![x]
    } else {
        Seq::<GpuProcessInfo>::empty()
    }));
}

/// Inserting `x` after every element of rank at most its own keeps the
/// ranks ascending and appends `x` to the processes of its rank.
proof fn lemma_insert_step(
    out: Seq<GpuProcessInfo>,
    p: int,
    x: GpuProcessInfo,
    sort: SortKey,
    r: int,
)
    requires
        0 <= p <= out.len(),
        forall|i: int| 0 <= i < p ==> sort_rank(out[i], sort) <= sort_rank(x, sort),
        forall|i: int| p <= i < out.len() ==> sort_rank(out[i], sort) > sort_rank(x, sort),
    ensures
        of_rank(out.insert(p, x), sort, r) == (if sort_rank(x, sort) == r {
            of_rank(out, sort, r).push(x)
        } else {
            of_rank(out, sort, r)
        }),
{
    let a = out.subrange(0, p);
    let b = out.subrange(p, out.len() as int);
    assert(out =~= a + b);
    assert(out.insert(p, x) =~= a + seq![x] + b);
    lemma_of_rank_append(a + seq![x], b, sort, r);
    lemma_of_rank_append(a, seq![x], sort, r);
    lemma_of_rank_append(a, b, sort, r);
    lemma_of_rank_single(x, sort, r);
    if sort_rank(x, sort) == r {
        assert forall|i: int| 0 <= i < b.len() implies sort_rank(b[i], sort) != r by {
            assert(b[i] == out[p + i]);
        }
        lemma_of_rank_none(b, sort, r);
        assert(of_rank(out.insert(p, x), sort, r) =~= of_rank(out, sort, r).push(x));
    } else {
        assert(of_rank(out.insert(p, x), sort, r) =~= of_rank(out, sort, r));
    }
}

/// The rank of a process as an executable number.
fn rank_of(p: &GpuProcessInfo, sort: SortKey) -> (r: i128)
    ensures
        r as int == sort_rank(*p, sort),
{
    match sort {
        SortKey::GpuPercent => {
            let bits = p.gpu_percent_bits;
            if bits >= 0x8000_0000_0000_0000 {
                (bits - 0x8000_0000_0000_0000) as i128
            } else {
                -(bits as i128)
            }
        },
        SortKey::GpuTime => -(p.gpu_time_ns as i128),
        SortKey::Vram => match p.vram_bytes {
            Some(v) => -(v as i128),
            None => 1,
        },
        SortKey::Pid => p.pid as i128,
    }
}

/// Sort processes by `sort`, stably.
pub fn sort_processes(processes: &mut Vec<GpuProcessInfo>, sort: SortKey)
    ensures
        stable_sorted(final(processes)@, old(processes)@, sort),
        forall|i: int, j: int|
            0 <= i < j < final(processes)@.len() ==> ordered_pair(
                #[trigger] final(processes)@[i],
                #[trigger] final(processes)@[j],
                sort,
            ),
{
    let mut input: Vec<GpuProcessInfo> = Vec::new();
    std::mem::swap(&mut input, processes);
    let ghost orig = input@;
    let total = input.len();
    assert(orig.len() == total);
    let mut out: Vec<GpuProcessInfo> = Vec::new();
    let mut done: usize = 0;
    while input.len() > 0
        invariant
            orig.len() <= usize::MAX,
            done + input@.len() == orig.len(),
            input@ == orig.skip(done as int),
            sorted_by(out@, sort),
            forall|r: int| #[trigger] of_rank(out@, sort, r) == of_rank(orig.take(done as int), sort, r),
        decreases input@.len(),
    {
        let x = input.remove(0);
        assert(x == orig[done as int]);
        assert(input@ =~= orig.skip(done + 1));
        let rx = rank_of(&x, sort);
        let mut p: usize = 0;
        while p < out.len() && rank_of(&out[p], sort) <= rx
            invariant
                p <= out@.len(),
                rx as int == sort_rank(x, sort),
                forall|i: int| 0 <= i < p ==> sort_rank(out@[i], sort) <= sort_rank(x, sort),
            decreases out@.len() - p,
        {
            p = p + 1;
        }
        let ghost before = out@;
        assert forall|i: int| p <= i < before.len() implies sort_rank(before[i], sort) > sort_rank(
            x,
            sort,
        ) by {
            if p < before.len() {
                assert(sort_rank(before[p as int], sort) > sort_rank(x, sort));
            }
        }
        out.insert(p, x);
        assert forall|r: int| #[trigger] of_rank(out@, sort, r) == of_rank(
            orig.take(done + 1),
            sort,
            r,
        ) by {
            lemma_insert_step(before, p as int, x, sort, r);
            assert(orig.take(done + 1).drop_last() =~= orig.take(done as int));
            assert(orig.take(done + 1).last() == x);
        }
        assert forall|i: int, j: int| 0 <= i < j < out@.len() implies sort_rank(out@[i], sort)
            <= sort_rank(out@[j], sort) by {
            let pi = p as int;
            if j < pi {
                assert(out@[i] == before[i] && out@[j] == before[j]);
            } else if j == pi {
                assert(out@[i] == before[i]);
            } else if i < pi {
                assert(out@[i] == before[i] && out@[j] == before[j - 1]);
                if pi < before.len() {
                    assert(sort_rank(before[pi], sort) > sort_rank(x, sort));
                }
            } else if i == pi {
                assert(out@[j] == before[j - 1]);
            } else {
                assert(out@[i] == before[i - 1] && out@[j] == before[j - 1]);
            }
        }
        done = done + 1;
    }
    assert(orig.take(orig.len() as int) =~= orig);
    proof {
        law_sorted_by_field(out@, orig, sort);
    }
    *processes = out;
}

// ── assembling a run's output ───────────────────────────────────────────────

/// The output of a run, from the per-process records of the second
/// snapshot and the devices: keep only the requested PID when one was
/// given, then sort stably by the sort key.
pub fn assemble_output(
    processes: Vec<GpuProcessInfo>,
    devices: Vec<DeviceGpuInfo>,
    sort: SortKey,
    pid_filter: Option<i32>,
    timestamp_ms: u64,
    sample_interval_ms: u64,
) -> (out: GpuOutput)
    ensures
        stable_sorted(out.processes@, kept(processes@, pid_filter), sort),
        out.devices == devices,
        out.timestamp_ms == timestamp_ms,
        out.sample_interval_ms == sample_interval_ms,
{
    let mut processes = processes;
    if let Some(pid) = pid_filter {
        retain_pid(&mut processes, pid);
    }
    sort_processes(&mut processes, sort);
    GpuOutput { timestamp_ms, sample_interval_ms, processes, devices }
}


// ── laws ────────────────────────────────────────────────────────────────────

proof fn lemma_count_by_rank(s: Seq<GpuProcessInfo>, sort: SortKey, e: GpuProcessInfo)
    ensures
        s.to_multiset().count(e) == of_rank(s, sort, sort_rank(e, sort)).to_multiset().count(e),
    decreases s.len(),
{
    broadcast use vstd::seq_lib::group_to_multiset_ensures;

    if s.len() > 0 {
        let init = s.drop_last();
        let last = s.last();
        lemma_count_by_rank(init, sort, e);
        assert(s =~= init.push(last));
        let r = sort_rank(e, sort);
        if sort_rank(last, sort) == r {
            assert(of_rank(s, sort, r) == of_rank(init, sort, r).push(last));
        } else {
            assert(of_rank(s, sort, r) == of_rank(init, sort, r));
        }
    } else {
        assert(of_rank(s, sort, sort_rank(e, sort)) =~= s);
    }
}

/// Sorting loses and adds no process: a stably sorted sequence holds the
/// same processes, as many times each, as its input.
pub proof fn law_sort_is_permutation(out: Seq<GpuProcessInfo>, inp: Seq<GpuProcessInfo>, sort: SortKey)
    requires
        stable_sorted(out, inp, sort),
    ensures
        out.to_multiset() == inp.to_multiset(),
{
    assert forall|e: GpuProcessInfo| out.to_multiset().count(e) == inp.to_multiset().count(e) by {
        lemma_count_by_rank(out, sort, e);
        lemma_count_by_rank(inp, sort, e);
        assert(of_rank(out, sort, sort_rank(e, sort)) == of_rank(inp, sort, sort_rank(e, sort)));
    }
    assert(out.to_multiset() =~= inp.to_multiset());
}

/// How a sorted sequence of processes is ordered, field by field: GPU%
/// highest first as numbers (with the sign bit set, a larger magnitude is
/// smaller; both zeros are equal), GPU time highest first, VRAM highest
/// first with unknown VRAM after every known one, PID lowest first.
pub open spec fn ordered_pair(a: GpuProcessInfo, b: GpuProcessInfo, sort: SortKey) -> bool {
    match sort {
        SortKey::GpuPercent => {
            let x = a.gpu_percent_bits;
            let y = b.gpu_percent_bits;
            &&& (x < 0x8000_0000_0000_0000 && y < 0x8000_0000_0000_0000) ==> x >= y
            &&& (x >= 0x8000_0000_0000_0000 && y >= 0x8000_0000_0000_0000) ==> x <= y
            &&& (x >= 0x8000_0000_0000_0000 && y < 0x8000_0000_0000_0000) ==> (x
                == 0x8000_0000_0000_0000 && y == 0)
        },
        SortKey::GpuTime => a.gpu_time_ns >= b.gpu_time_ns,
        SortKey::Vram => match b.vram_bytes {
            Some(vb) => a.vram_bytes matches Some(va) && va >= vb,
            None => true,
        },
        SortKey::Pid => a.pid <= b.pid,
    }
}

/// A sorted output is ordered by the sort key's field: every process comes
/// before every later one in the order of `ordered_pair`.
pub proof fn law_sorted_by_field(out: Seq<GpuProcessInfo>, inp: Seq<GpuProcessInfo>, sort: SortKey)
    requires
        stable_sorted(out, inp, sort),
    ensures
        forall|i: int, j: int| 0 <= i < j < out.len() ==> ordered_pair(#[trigger] out[i], #[trigger] out[j], sort),
{
    assert forall|i: int, j: int| 0 <= i < j < out.len() implies ordered_pair(
        #[trigger] out[i],
        #[trigger] out[j],
        sort,
    ) by {
        assert(sort_rank(out[i], sort) <= sort_rank(out[j], sort));
    }
}

proof fn lemma_of_rank_split(s: Seq<GpuProcessInfo>, sort: SortKey, r: int, k: int)
    requires
        0 <= k <= s.len(),
    ensures
        of_rank(s, sort, r) == of_rank(s.take(k), sort, r) + of_rank(s.skip(k), sort, r),
{
    assert(s =~= s.take(k) + s.skip(k));
    lemma_of_rank_append(s.take(k), s.skip(k), sort, r);
}

proof fn lemma_of_rank_prefix_grows(s: Seq<GpuProcessInfo>, sort: SortKey, r: int, k1: int, k2: int)
    requires
        0 <= k1 <= k2 <= s.len(),
    ensures
        of_rank(s.take(k1), sort, r).len() <= of_rank(s.take(k2), sort, r).len(),
{
    lemma_of_rank_split(s.take(k2), sort, r, k1);
    assert(s.take(k2).take(k1) =~= s.take(k1));
}

/// A process of rank `r` at index `i` sits in the processes of rank `r` at
/// the position given by how many come before it.
proof fn lemma_of_rank_position(s: Seq<GpuProcessInfo>, sort: SortKey, r: int, i: int)
    requires
        0 <= i < s.len(),
        sort_rank(s[i], sort) == r,
    ensures
        of_rank(s.take(i), sort, r).len() < of_rank(s, sort, r).len(),
        of_rank(s, sort, r)[of_rank(s.take(i), sort, r).len() as int] == s[i],
        of_rank(s.take(i + 1), sort, r).len() == of_rank(s.take(i), sort, r).len() + 1,
{
    lemma_of_rank_split(s, sort, r, i + 1);
    assert(s.take(i + 1).drop_last() =~= s.take(i));
    assert(s.take(i + 1).last() == s[i]);
    assert(of_rank(s.take(i + 1), sort, r) == of_rank(s.take(i), sort, r).push(s[i]));
}

/// Every position of the processes of rank `r` comes from an index of `s`.
proof fn lemma_of_rank_source(s: Seq<GpuProcessInfo>, sort: SortKey, r: int, m: int) -> (a: int)
    requires
        0 <= m < of_rank(s, sort, r).len(),
    ensures
        0 <= a < s.len(),
        sort_rank(s[a], sort) == r,
        of_rank(s.take(a), sort, r).len() == m,
    decreases s.len(),
{
    let init = s.drop_last();
    if m < of_rank(init, sort, r).len() {
        let a = lemma_of_rank_source(init, sort, r, m);
        assert(init.take(a) =~= s.take(a));
        assert(init[a] == s[a]);
        a
    } else {
        let a = s.len() - 1;
        assert(s.take(a) =~= init);
        a
    }
}

/// A stable sort keeps processes of equal rank in their order: when
/// `inp[i]` comes before `inp[j]` and both have the same rank, the output
/// holds `inp[i]` at some position before one that holds `inp[j]`.
pub proof fn law_sort_keeps_order_of_equal_keys(
    out: Seq<GpuProcessInfo>,
    inp: Seq<GpuProcessInfo>,
    sort: SortKey,
    i: int,
    j: int,
)
    requires
        stable_sorted(out, inp, sort),
        0 <= i < j < inp.len(),
        sort_rank(inp[i], sort) == sort_rank(inp[j], sort),
    ensures
        exists|a: int, b: int| 0 <= a < b < out.len() && out[a] == inp[i] && out[b] == inp[j],
{
    let r = sort_rank(inp[i], sort);
    lemma_of_rank_position(inp, sort, r, i);
    lemma_of_rank_position(inp, sort, r, j);
    lemma_of_rank_prefix_grows(inp, sort, r, i + 1, j);
    let mi = of_rank(inp.take(i), sort, r).len() as int;
    let mj = of_rank(inp.take(j), sort, r).len() as int;
    assert(of_rank(out, sort, r) == of_rank(inp, sort, r));
    let a = lemma_of_rank_source(out, sort, r, mi);
    let b = lemma_of_rank_source(out, sort, r, mj);
    lemma_of_rank_position(out, sort, r, a);
    lemma_of_rank_position(out, sort, r, b);
    if b <= a {
        lemma_of_rank_prefix_grows(out, sort, r, b, a);
    }
    assert(out[a] == inp[i]);
    assert(out[b] == inp[j]);
}

proof fn lemma_only_pid_has_pid(s: Seq<GpuProcessInfo>, pid: i32)
    ensures
        forall|i: int| 0 <= i < only_pid(s, pid).len() ==> (#[trigger] only_pid(s, pid)[i]).pid == pid,
    decreases s.len(),
{
    if s.len() > 0 {
        lemma_only_pid_has_pid(s.drop_last(), pid);
    }
}

/// With a PID filter, every reported process has the requested PID.
pub proof fn law_filter_keeps_only_pid(out: Seq<GpuProcessInfo>, inp: Seq<GpuProcessInfo>, pid: i32, sort: SortKey)
    requires
        stable_sorted(out, kept(inp, Some(pid)), sort),
    ensures
        forall|i: int| 0 <= i < out.len() ==> (#[trigger] out[i]).pid == pid,
{
    broadcast use vstd::seq_lib::group_to_multiset_ensures;

    law_sort_is_permutation(out, only_pid(inp, pid), sort);
    lemma_only_pid_has_pid(inp, pid);
    assert forall|i: int| 0 <= i < out.len() implies (#[trigger] out[i]).pid == pid by {
        assert(out.contains(out[i]));
        assert(out.to_multiset().count(out[i]) > 0);
        assert(only_pid(inp, pid).to_multiset().count(out[i]) > 0);
        assert(only_pid(inp, pid).contains(out[i]));
    }
}

proof fn lemma_only_pid_keeps_pid(s: Seq<GpuProcessInfo>, pid: i32, j: int)
    requires
        0 <= j < s.len(),
        s[j].pid == pid,
    ensures
        only_pid(s, pid).contains(s[j]),
    decreases s.len(),
{
    if j < s.len() - 1 {
        lemma_only_pid_keeps_pid(s.drop_last(), pid, j);
        let k = choose|k: int| 0 <= k < only_pid(s.drop_last(), pid).len() && only_pid(s.drop_last(), pid)[k] == s.drop_last()[j];
        assert(only_pid(s, pid)[k] == s[j]);
    } else {
        assert(only_pid(s, pid).last() == s[j]);
        assert(only_pid(s, pid)[only_pid(s, pid).len() - 1] == s[j]);
    }
}

/// With a PID filter, the requested PID is reported exactly when some
/// process record of it was handed in.
pub proof fn law_filter_reports_requested_pid(out: Seq<GpuProcessInfo>, inp: Seq<GpuProcessInfo>, pid: i32, sort: SortKey)
    requires
        stable_sorted(out, kept(inp, Some(pid)), sort),
    ensures
        (exists|i: int| 0 <= i < out.len() && (#[trigger] out[i]).pid == pid) <==> (exists|j: int|
            0 <= j < inp.len() && (#[trigger] inp[j]).pid == pid),
{
    broadcast use vstd::seq_lib::group_to_multiset_ensures;

    law_sort_is_permutation(out, only_pid(inp, pid), sort);
    law_filter_keeps_only_pid(out, inp, pid, sort);
    if exists|i: int| 0 <= i < out.len() && (#[trigger] out[i]).pid == pid {
        let i = choose|i: int| 0 <= i < out.len() && (#[trigger] out[i]).pid == pid;
        assert(out.contains(out[i]));
        assert(only_pid(inp, pid).to_multiset().count(out[i]) > 0);
        assert(only_pid(inp, pid).contains(out[i]));
        lemma_only_pid_subset(inp, pid, out[i]);
        let j = choose|j: int| 0 <= j < inp.len() && inp[j] == out[i];
        assert(inp[j].pid == pid);
    }
    if exists|j: int| 0 <= j < inp.len() && (#[trigger] inp[j]).pid == pid {
        let j = choose|j: int| 0 <= j < inp.len() && (#[trigger] inp[j]).pid == pid;
        lemma_only_pid_keeps_pid(inp, pid, j);
        assert(only_pid(inp, pid).to_multiset().count(inp[j]) > 0);
        assert(out.to_multiset().count(inp[j]) > 0);
        assert(out.contains(inp[j]));
        let i = choose|i: int| 0 <= i < out.len() && out[i] == inp[j];
        assert(out[i].pid == pid);
    }
}

proof fn lemma_only_pid_subset(s: Seq<GpuProcessInfo>, pid: i32, x: GpuProcessInfo)
    requires
        only_pid(s, pid).contains(x),
    ensures
        s.contains(x),
    decreases s.len(),
{
    if s.len() > 0 {
        let prev = only_pid(s.drop_last(), pid);
        if prev.contains(x) {
            lemma_only_pid_subset(s.drop_last(), pid, x);
            let j = choose|j: int| 0 <= j < s.drop_last().len() && s.drop_last()[j] == x;
            assert(s[j] == x);
        } else {
            let k = choose|k: int| 0 <= k < only_pid(s, pid).len() && only_pid(s, pid)[k] == x;
            if s.last().pid == pid {
                if k < prev.len() {
                    assert(prev[k] == x);
                }
                assert(s[s.len() - 1] == x);
            } else {
                assert(prev[k] == x);
            }
        }
    }
}

/// A snapshot after seeding: the zero-GPU-time sample `seed` is added when
/// the requested PID is missing.
pub open spec fn seeded(samples: Seq<RawSample>, pid_filter: Option<i32>, seed: RawSample) -> Seq<RawSample> {
    match pid_to_seed(samples, pid_filter) {
        Some(_) => samples.push(seed),
        None => samples,
    }
}

/// After seeding with a sample of the requested PID, the snapshot holds a
/// sample of that PID.
pub proof fn law_seeding_makes_pid_present(samples: Seq<RawSample>, pid: i32, seed: RawSample)
    requires
        seed.pid == pid,
    ensures
        has_pid(seeded(samples, Some(pid), seed), pid),
{
    if !has_pid(samples, pid) {
        let s = samples.push(seed);
        assert(s[samples.len() as int].pid == pid);
    }
}

} // verus!
