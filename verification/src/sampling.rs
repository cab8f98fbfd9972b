//! Raw per-process samples and the per-process GPU activity computed from
//! two of them.

use vstd::prelude::*;

verus! {

/// A raw per-process GPU sample collected at one point in time.
#[derive(Debug, Clone, PartialEq, Eq)]
pub struct RawSample {
    pub pid: i32,
    pub name: String,
    /// Cumulative GPU execution time in nanoseconds (since process start).
    pub gpu_time_ns: u64,
    /// Metal memory footprint in bytes, if readable.
    pub vram_bytes: Option<u64>,
    /// Wall-clock nanoseconds when this sample was taken.
    pub wall_ns: u64,
}

/// Build a zero-GPU-time sample for a PID that has no GPU connection yet,
/// from its name, its memory footprint and the wall-clock time.
pub fn seed_sample(pid: i32, name: String, vram_bytes: Option<u64>, wall_ns: u64) -> (s: RawSample)
    ensures
        s == (RawSample { pid, name, gpu_time_ns: 0, vram_bytes, wall_ns }),
{
    RawSample { pid, name, gpu_time_ns: 0, vram_bytes, wall_ns }
}

/// The share of the GPU a process had between two samples: `busy_ns` of
/// GPU time over `wall_ns` of wall-clock time. The utilization percentage
/// is `busy_ns / wall_ns * 100` computed in doubles, or 0 when `wall_ns`
/// is 0. A share never exceeds the whole interval (`busy_ns <= wall_ns`),
/// so the percentage stays within 0 to 100.
#[derive(Debug, Clone, Copy, PartialEq, Eq, Structural)]
pub struct GpuShare {
    pub busy_ns: u64,
    pub wall_ns: u64,
}

/// Per-process GPU activity between two samples.
#[derive(Debug, Clone, PartialEq, Eq)]
pub struct ProcessActivity {
    pub pid: i32,
    pub name: String,
    /// Cumulative GPU time at the second sample.
    pub gpu_time_ns: u64,
    /// GPU time and wall time elapsed between the two samples.
    pub share: GpuShare,
    /// Memory footprint at the second sample.
    pub vram_bytes: Option<u64>,
}

/// `a - b`, or 0 when `b > a`.
pub open spec fn saturating_diff(a: u64, b: u64) -> u64 {
    if a >= b {
        (a - b) as u64
    } else {
        0
    }
}

/// `i` is the position of the first sample in `s` with process ID `pid`.
pub open spec fn is_first_with_pid(s: Seq<RawSample>, pid: i32, i: int) -> bool {
    &&& 0 <= i < s.len()
    &&& s[i].pid == pid
    &&& forall|j: int| 0 <= j < i ==> s[j].pid != pid
}

/// The position of the first sample in `s` with process ID `pid`, if any.
pub open spec fn first_with_pid(s: Seq<RawSample>, pid: i32) -> Option<int> {
    if exists|i: int| is_first_with_pid(s, pid, i) {
        Some(choose|i: int| is_first_with_pid(s, pid, i))
    } else {
        None
    }
}

/// The share between an earlier sample `s1` and a later sample `s2`: the
/// GPU time elapsed, capped at the wall-clock time elapsed.
pub open spec fn share_between(s1: RawSample, s2: RawSample) -> GpuShare {
    let wall = saturating_diff(s2.wall_ns, s1.wall_ns);
    let busy = saturating_diff(s2.gpu_time_ns, s1.gpu_time_ns);
    if wall > 0 {
        GpuShare { busy_ns: if busy > wall { wall } else { busy }, wall_ns: wall }
    } else {
        GpuShare { busy_ns: 0, wall_ns: 0 }
    }
}

/// The share of the process of `s2`, measured against the first sample of
/// the same process in `first` (no share when there is none).
pub open spec fn share_for(first: Seq<RawSample>, s2: RawSample) -> GpuShare {
    match first_with_pid(first, s2.pid) {
        Some(i) => share_between(first[i], s2),
        None => GpuShare { busy_ns: 0, wall_ns: 0 },
    }
}

/// A process shows GPU activity when it has GPU time, a nonzero share
/// (nonzero utilization), or a nonzero memory footprint.
pub open spec fn has_activity(s2: RawSample, share: GpuShare) -> bool {
    ||| s2.gpu_time_ns != 0
    ||| share.busy_ns != 0
    ||| (match s2.vram_bytes {
        Some(v) => v > 0,
        None => false,
    })
}

/// The activity record of the process of `s2`.
pub open spec fn activity_for(first: Seq<RawSample>, s2: RawSample) -> ProcessActivity {
    ProcessActivity {
        pid: s2.pid,
        name: s2.name,
        gpu_time_ns: s2.gpu_time_ns,
        share: share_for(first, s2),
        vram_bytes: s2.vram_bytes,
    }
}

/// The activity records of the processes of `second` that show activity,
/// in the order of `second`.
pub open spec fn gpu_activity(first: Seq<RawSample>, second: Seq<RawSample>) -> Seq<ProcessActivity>
    decreases second.len(),
{
    if second.len() == 0 {
        seq![]
    } else {
        let prev = gpu_activity(first, second.drop_last());
        let s2 = second.last();
        if has_activity(s2, share_for(first, s2)) {
            prev.push(activity_for(first, s2))
        } else {
            prev
        }
    }
}

/// The first sample in `first` with process ID `pid`, if any.
fn find_first(first: &Vec<RawSample>, pid: i32) -> (r: Option<usize>)
    ensures
        match r {
            Some(i) => first_with_pid(first@, pid) == Some(i as int),
            None => first_with_pid(first@, pid) is None,
        },
{
    let mut j: usize = 0;
    while j < first.len()
        invariant
            j <= first@.len(),
            forall|k: int| 0 <= k < j ==> first@[k].pid != pid,
        decreases first.len() - j,
    {
        if first[j].pid == pid {
            assert(is_first_with_pid(first@, pid, j as int));
            let ghost c = choose|i: int| is_first_with_pid(first@, pid, i);
            assert(c == j as int) by {
                assert(is_first_with_pid(first@, pid, c));
                if c < j {
                    assert(first@[c].pid != pid);
                } else if c > j {
                    assert(first@[j as int].pid != pid);
                }
            }
            return Some(j);
        }
        j = j + 1;
    }
    assert forall|i: int| !is_first_with_pid(first@, pid, i) by {
        if 0 <= i < first@.len() {
            assert(first@[i].pid != pid);
        }
    }
    None
}

/// The share of the process of `s2` against the first sample of the same
/// process in `first`.
fn share_of(first: &Vec<RawSample>, s2: &RawSample) -> (sh: GpuShare)
    ensures
        sh == share_for(first@, *s2),
{
    match find_first(first, s2.pid) {
        Some(i) => {
            let s1 = &first[i];
            let wall = s2.wall_ns.saturating_sub(s1.wall_ns);
            let busy = s2.gpu_time_ns.saturating_sub(s1.gpu_time_ns);
            if wall > 0 {
                GpuShare { busy_ns: if busy > wall { wall } else { busy }, wall_ns: wall }
            } else {
                GpuShare { busy_ns: 0, wall_ns: 0 }
            }
        },
        None => GpuShare { busy_ns: 0, wall_ns: 0 },
    }
}

/// Compute the GPU activity of each process of the second snapshot that
/// shows any: GPU time, a nonzero share against its first sample in the
/// first snapshot, or memory.
pub fn compute_gpu_info(first: &Vec<RawSample>, second: &Vec<RawSample>) -> (r: Vec<
    ProcessActivity,
>)
    ensures
        r@ == gpu_activity(first@, second@),
{
    let mut r: Vec<ProcessActivity> = Vec::new();
    let mut i: usize = 0;
    while i < second.len()
        invariant
            i <= second@.len(),
            r@ == gpu_activity(first@, second@.take(i as int)),
        decreases second.len() - i,
    {
        let s2 = &second[i];
        let share = share_of(first, s2);
        let has_vram = match s2.vram_bytes {
            Some(v) => v > 0,
            None => false,
        };
        assert(second@.take(i + 1).drop_last() =~= second@.take(i as int));
        if s2.gpu_time_ns != 0 || share.busy_ns != 0 || has_vram {
            r.push(
                ProcessActivity {
                    pid: s2.pid,
                    name: s2.name.clone(),
                    gpu_time_ns: s2.gpu_time_ns,
                    share,
                    vram_bytes: s2.vram_bytes,
                },
            );
        }
        i = i + 1;
    }
    assert(second@.take(second@.len() as int) =~= second@);
    r
}


// ── laws ────────────────────────────────────────────────────────────────────

/// Every reported process comes from the second snapshot and shows
/// activity: its record is that of a sample of the second snapshot, with
/// the share measured against the first snapshot.
pub proof fn law_reported_processes_are_active(first: Seq<RawSample>, second: Seq<RawSample>)
    ensures
        forall|k: int|
            0 <= k < gpu_activity(first, second).len() ==> exists|j: int|
                0 <= j < second.len() && #[trigger] gpu_activity(first, second)[k] == activity_for(
                    first,
                    second[j],
                ) && has_activity(second[j], share_for(first, second[j])),
    decreases second.len(),
{
    if second.len() > 0 {
        let init = second.drop_last();
        law_reported_processes_are_active(first, init);
        let out = gpu_activity(first, second);
        let prev = gpu_activity(first, init);
        assert forall|k: int| 0 <= k < out.len() implies exists|j: int|
            0 <= j < second.len() && #[trigger] out[k] == activity_for(first, second[j])
                && has_activity(second[j], share_for(first, second[j])) by {
            if k < prev.len() {
                let j = choose|j: int|
                    0 <= j < init.len() && #[trigger] prev[k] == activity_for(first, init[j])
                        && has_activity(init[j], share_for(first, init[j]));
                assert(second[j] == init[j]);
                assert(out[k] == prev[k]);
            } else {
                let j = second.len() - 1;
                assert(second[j] == second.last());
            }
        }
    }
}

/// Every process of the second snapshot that shows activity is reported.
pub proof fn law_active_processes_are_reported(first: Seq<RawSample>, second: Seq<RawSample>)
    ensures
        forall|j: int|
            0 <= j < second.len() && has_activity(second[j], share_for(first, second[j]))
                ==> gpu_activity(first, second).contains(activity_for(first, #[trigger] second[j])),
    decreases second.len(),
{
    if second.len() > 0 {
        let init = second.drop_last();
        law_active_processes_are_reported(first, init);
        let out = gpu_activity(first, second);
        let prev = gpu_activity(first, init);
        assert forall|j: int|
            0 <= j < second.len() && has_activity(second[j], share_for(first, second[j]))
                implies out.contains(activity_for(first, #[trigger] second[j])) by {
            if j < init.len() {
                assert(second[j] == init[j]);
                assert(prev.contains(activity_for(first, init[j])));
                let k = choose|k: int| 0 <= k < prev.len() && prev[k] == activity_for(first, init[j]);
                assert(out[k] == prev[k]);
            } else {
                assert(second[j] == second.last());
                assert(out[out.len() - 1] == activity_for(first, second[j]));
            }
        }
    }
}

/// A process with no sample in the first snapshot has no share: its GPU
/// utilization is 0.
pub proof fn law_new_process_has_no_share(first: Seq<RawSample>, s2: RawSample)
    requires
        forall|i: int| 0 <= i < first.len() ==> first[i].pid != s2.pid,
    ensures
        share_for(first, s2) == (GpuShare { busy_ns: 0, wall_ns: 0 }),
{
    assert forall|i: int| !is_first_with_pid(first, s2.pid, i) by {
        if 0 <= i < first.len() {
            assert(first[i].pid != s2.pid);
        }
    }
}

/// Every reported share lies within its interval: the GPU time counted
/// never exceeds the wall-clock time, so the utilization is at most 100%.
pub proof fn law_shares_within_interval(first: Seq<RawSample>, second: Seq<RawSample>)
    ensures
        forall|k: int|
            0 <= k < gpu_activity(first, second).len() ==> (#[trigger] gpu_activity(first, second)[k]).share.busy_ns
                <= gpu_activity(first, second)[k].share.wall_ns,
{
    law_reported_processes_are_active(first, second);
    assert forall|k: int| 0 <= k < gpu_activity(first, second).len() implies (#[trigger] gpu_activity(
        first,
        second,
    )[k]).share.busy_ns <= gpu_activity(first, second)[k].share.wall_ns by {
        let j = choose|j: int|
            0 <= j < second.len() && #[trigger] gpu_activity(first, second)[k] == activity_for(
                first,
                second[j],
            ) && has_activity(second[j], share_for(first, second[j]));
    }
}

/// A process shows activity exactly when it has GPU time or memory: a
/// nonzero share implies GPU time, since the share is GPU time elapsed.
proof fn lemma_activity_is_time_or_memory(first: Seq<RawSample>, s2: RawSample)
    ensures
        has_activity(s2, share_for(first, s2)) <==> (s2.gpu_time_ns != 0 || (match s2.vram_bytes {
            Some(v) => v > 0,
            None => false,
        })),
{
}

/// A process is reported exactly when some sample of it in the second
/// snapshot has GPU time or memory. With a PID filter, the requested PID
/// (seeded with a zero-GPU-time sample where missing) is thus reported
/// exactly when its second sample shows GPU time or memory.
pub proof fn law_reported_iff_time_or_memory(first: Seq<RawSample>, second: Seq<RawSample>, pid: i32)
    ensures
        (exists|k: int|
            0 <= k < gpu_activity(first, second).len() && (#[trigger] gpu_activity(first, second)[k]).pid
                == pid) <==> (exists|j: int|
            0 <= j < second.len() && (#[trigger] second[j]).pid == pid && (second[j].gpu_time_ns != 0
                || (match second[j].vram_bytes {
                Some(v) => v > 0,
                None => false,
            }))),
{
    let out = gpu_activity(first, second);
    law_reported_processes_are_active(first, second);
    law_active_processes_are_reported(first, second);
    if exists|k: int| 0 <= k < out.len() && (#[trigger] out[k]).pid == pid {
        let k = choose|k: int| 0 <= k < out.len() && (#[trigger] out[k]).pid == pid;
        let j = choose|j: int|
            0 <= j < second.len() && #[trigger] out[k] == activity_for(first, second[j])
                && has_activity(second[j], share_for(first, second[j]));
        lemma_activity_is_time_or_memory(first, second[j]);
        assert(second[j].pid == pid);
    }
    if exists|j: int|
        0 <= j < second.len() && (#[trigger] second[j]).pid == pid && (second[j].gpu_time_ns != 0
            || (match second[j].vram_bytes {
            Some(v) => v > 0,
            None => false,
        })) {
        let j = choose|j: int|
            0 <= j < second.len() && (#[trigger] second[j]).pid == pid && (second[j].gpu_time_ns != 0
                || (match second[j].vram_bytes {
                Some(v) => v > 0,
                None => false,
            }));
        lemma_activity_is_time_or_memory(first, second[j]);
        assert(out.contains(activity_for(first, second[j])));
        let k = choose|k: int| 0 <= k < out.len() && out[k] == activity_for(first, second[j]);
        assert(out[k].pid == pid);
    }
}

} // verus!
