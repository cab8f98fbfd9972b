//! The human-readable report: a header, the process table, and a summary
//! line per device.
//!
//! Numbers that are doubles (the sample interval in seconds and the
//! utilization percentages) arrive already written with one decimal; every
//! other part of the report is laid out here.

use crate::text::{push_char, push_signed_decimal, signed_decimal};
use crate::types::{
    bytes_text, duration_text, format_bytes, format_duration_ns, DeviceGpuInfo, GpuOutput,
    GpuProcessInfo,
};
use vstd::string::StrSliceExecFns;
use vstd::prelude::*;
use vstd::string::StringSliceAdditionalSpecFns;
use vstd::utf8::{decode_utf8, encode_utf8, is_char_boundary};

verus! {

/// The length in bytes of the UTF-8 encoding of `s`, as `str::len`
/// reports it.
pub open spec fn byte_len(s: Seq<char>) -> nat {
    (encode_utf8(s).len() as usize) as nat
}

/// The longest process name, in bytes (0 when there are none).
pub open spec fn longest_name(ps: Seq<GpuProcessInfo>) -> nat
    decreases ps.len(),
{
    if ps.len() == 0 {
        0
    } else {
        let prev = longest_name(ps.drop_last());
        let here = byte_len(ps.last().name@);
        if here > prev {
            here
        } else {
            prev
        }
    }
}

/// The width of the NAME column: the longest name in bytes, but at least 4
/// and at most 30.
pub open spec fn name_width(ps: Seq<GpuProcessInfo>) -> nat {
    let w = longest_name(ps);
    if w < 4 {
        4
    } else if w > 30 {
        30
    } else {
        w
    }
}

/// The width of the NAME column for `processes`.
pub fn name_column_width(processes: &Vec<GpuProcessInfo>) -> (w: usize)
    ensures
        w == name_width(processes@),
{
    let mut longest: usize = 0;
    let mut i: usize = 0;
    while i < processes.len()
        invariant
            i <= processes@.len(),
            longest == longest_name(processes@.take(i as int)),
        decreases processes.len() - i,
    {
        let here = processes[i].name.as_str().len();
        assert(processes@.take(i + 1).drop_last() =~= processes@.take(i as int));
        assert(processes@.take(i + 1).last() == processes@[i as int]);
        assert(here == byte_len(processes@[i as int].name@));
        if here > longest {
            longest = here;
        }
        i = i + 1;
    }
    assert(processes@.take(processes@.len() as int) =~= processes@);
    if longest < 4 {
        4
    } else if longest > 30 {
        30
    } else {
        longest
    }
}

/// The name as shown in a column of `width` bytes: unchanged when it fits,
/// else its first `width - 1` bytes followed by an ellipsis.
pub open spec fn fitted_name(name: Seq<char>, width: nat) -> Seq<char> {
    if byte_len(name) > width {
        let keep = if width >= 1 {
            (width - 1) as nat
        } else {
            0
        };
        decode_utf8(encode_utf8(name).subrange(0, keep as int)).push('…')
    } else {
        name
    }
}

/// Fit `name` into a column of `width` bytes. Cutting happens at a byte
/// offset, which must fall between two characters.
pub fn fit_name(name: &String, width: usize) -> (s: String)
    requires
        byte_len(name@) > width ==> is_char_boundary(
            encode_utf8(name@),
            (if width >= 1 {
                width - 1
            } else {
                0
            }) as int,
        ),
    ensures
        s@ == fitted_name(name@, width as nat),
{
    let text = name.as_str();
    if text.len() > width {
        let keep = if width >= 1 {
            width - 1
        } else {
            0
        };
        let (head, _tail) = text.split_at(keep);
        let mut s = String::from_str(head);
        proof {
            vstd::utf8::encode_utf8_decode_utf8(head@);
            assert(head.spec_bytes() == encode_utf8(head@));
            assert(text.spec_bytes() == encode_utf8(name@));
            assert(head@ == decode_utf8(encode_utf8(name@).subrange(0, keep as int)));
        }
        push_char(&mut s, '…');
        assert(s@ == fitted_name(name@, width as nat));
        s
    } else {
        name.clone()
    }
}


// ── alignment ───────────────────────────────────────────────────────────────

/// `n` copies of `c`.
pub open spec fn repeat_char(c: char, n: nat) -> Seq<char> {
    Seq::new(n, |i: int| c)
}

/// `t` left-aligned in a field of `w` characters (padded with spaces on the
/// right; never cut).
pub open spec fn align_left(t: Seq<char>, w: nat) -> Seq<char> {
    if t.len() >= w {
        t
    } else {
        t + repeat_char(' ', (w - t.len()) as nat)
    }
}

/// `t` right-aligned in a field of `w` characters (padded with spaces on
/// the left; never cut).
pub open spec fn align_right(t: Seq<char>, w: nat) -> Seq<char> {
    if t.len() >= w {
        t
    } else {
        repeat_char(' ', (w - t.len()) as nat) + t
    }
}

fn push_repeat(s: &mut String, c: char, n: usize)
    ensures
        final(s)@ == old(s)@ + repeat_char(c, n as nat),
{
    let mut i: usize = 0;
    while i < n
        invariant
            i <= n,
            s@ == old(s)@ + repeat_char(c, i as nat),
        decreases n - i,
    {
        push_char(s, c);
        i = i + 1;
        assert(s@ =~= old(s)@ + repeat_char(c, i as nat));
    }
}

fn push_left(s: &mut String, t: &str, w: usize)
    ensures
        final(s)@ == old(s)@ + align_left(t@, w as nat),
{
    let n = t.unicode_len();
    s.append(t);
    if n < w {
        push_repeat(s, ' ', w - n);
    }
    assert(s@ =~= old(s)@ + align_left(t@, w as nat));
}

fn push_right(s: &mut String, t: &str, w: usize)
    ensures
        final(s)@ == old(s)@ + align_right(t@, w as nat),
{
    let n = t.unicode_len();
    if n < w {
        push_repeat(s, ' ', w - n);
    }
    s.append(t);
    assert(s@ =~= old(s)@ + align_right(t@, w as nat));
}

// ── the report ──────────────────────────────────────────────────────────────

/// The doubles of a report, each written with one decimal: the sample
/// interval in seconds, each process's utilization, and each device's
/// utilization (unused for a device without one).
#[derive(Debug, Clone)]
pub struct FloatTexts {
    pub interval_seconds: String,
    pub process_percents: Vec<String>,
    pub device_percents: Vec<String>,
}

/// The texts of a list of strings.
pub open spec fn texts(v: Vec<String>) -> Seq<Seq<char>> {
    v@.map_values(|t: String| t@)
}

/// The column header line of the process table.
pub open spec fn table_header(w: nat) -> Seq<char> {
    ((((align_left("PID"@, 7).push(' ') + align_left("NAME"@, w)).push(' ').push(' ') + align_right(
        "GPU%"@,
        7,
    )).push(' ').push(' ') + align_right("GPU TIME"@, 10)).push(' ').push(' ') + align_right(
        "VRAM"@,
        8,
    )).push('\n')
}

/// The rule under the column header.
pub open spec fn table_rule(w: nat) -> Seq<char> {
    ((((repeat_char('-', 7).push(' ') + repeat_char('-', w)).push(' ').push(' ') + repeat_char(
        '-',
        7,
    )).push(' ').push(' ') + repeat_char('-', 10)).push(' ').push(' ') + repeat_char('-', 8)).push(
        '\n',
    )
}

/// The table line of a process, with its utilization text `pct`.
pub open spec fn process_line(p: GpuProcessInfo, pct: Seq<char>, w: nat) -> Seq<char> {
    (((((align_left(signed_decimal(p.pid as int), 7).push(' ') + align_left(
        fitted_name(p.name@, w),
        w,
    )).push(' ').push(' ') + align_right(pct, 6)).push('%').push(' ').push(' ') + align_right(
        duration_text(p.gpu_time_ns),
        10,
    )).push(' ').push(' ') + align_right(bytes_text(p.vram_bytes), 8))).push('\n')
}

/// The table lines of the first `n` processes.
pub open spec fn process_lines(ps: Seq<GpuProcessInfo>, pcts: Seq<Seq<char>>, w: nat, n: nat) -> Seq<
    char,
>
    decreases n,
{
    if n == 0 {
        Seq::empty()
    } else {
        process_lines(ps, pcts, w, (n - 1) as nat) + process_line(ps[n - 1], pcts[n - 1], w)
    }
}

/// The utilization part of a device line.
pub open spec fn device_gpu_part(d: DeviceGpuInfo, pct: Seq<char>) -> Seq<char> {
    if d.gpu_percent_bits is Some {
        (" | GPU: "@ + pct).push('%')
    } else {
        Seq::empty()
    }
}

/// The memory part of a device line.
pub open spec fn device_vram_part(d: DeviceGpuInfo) -> Seq<char> {
    if d.vram_used_bytes is Some || d.vram_total_bytes is Some {
        " | VRAM: "@ + bytes_text(d.vram_used_bytes) + " / "@ + bytes_text(d.vram_total_bytes)
    } else {
        Seq::empty()
    }
}

/// The summary line of a device, with its utilization text `pct`.
pub open spec fn device_line(d: DeviceGpuInfo, pct: Seq<char>) -> Seq<char> {
    ("Device: "@ + d.name@ + device_gpu_part(d, pct) + device_vram_part(d)).push('\n')
}

/// The summary lines of the first `n` devices.
pub open spec fn device_lines(ds: Seq<DeviceGpuInfo>, pcts: Seq<Seq<char>>, n: nat) -> Seq<char>
    decreases n,
{
    if n == 0 {
        Seq::empty()
    } else {
        device_lines(ds, pcts, (n - 1) as nat) + device_line(ds[n - 1], pcts[n - 1])
    }
}

/// The opening lines of the report.
pub open spec fn report_head(floats: FloatTexts) -> Seq<char> {
    ("metalps — GPU Process Monitor\n"@ + "Sample interval: "@ + floats.interval_seconds@
        + "s\n"@).push('\n')
}

/// The process part of the report.
pub open spec fn report_processes(data: GpuOutput, floats: FloatTexts) -> Seq<char> {
    let ps = data.processes@;
    let w = name_width(ps);
    if ps.len() == 0 {
        "No GPU activity detected.  (Run with --all to include idle processes.)\n"@
    } else {
        table_header(w) + table_rule(w) + process_lines(
            ps,
            texts(floats.process_percents),
            w,
            ps.len(),
        )
    }
}

/// The device part of the report.
pub open spec fn report_devices(data: GpuOutput, floats: FloatTexts) -> Seq<char> {
    let ds = data.devices@;
    if ds.len() == 0 {
        Seq::empty()
    } else {
        seq!['\n'] + device_lines(ds, texts(floats.device_percents), ds.len())
    }
}

/// The whole report.
pub open spec fn report_text(data: GpuOutput, floats: FloatTexts) -> Seq<char> {
    report_head(floats) + report_processes(data, floats) + report_devices(data, floats)
}

/// The device summary of a report: a blank line, then one line per
/// device, in order.
pub open spec fn device_summary(data: GpuOutput, floats: FloatTexts) -> Seq<char> {
    seq!['\n'] + device_lines(data.devices@, texts(floats.device_percents), data.devices@.len())
}

/// Whenever there are devices, the report ends with the device summary,
/// whether or not any process is listed.
pub proof fn law_report_ends_with_device_summary(data: GpuOutput, floats: FloatTexts)
    requires
        data.devices@.len() > 0,
    ensures
        report_text(data, floats).len() >= device_summary(data, floats).len(),
        report_text(data, floats).subrange(
            report_text(data, floats).len() - device_summary(data, floats).len(),
            report_text(data, floats).len() as int,
        ) == device_summary(data, floats),
{
    let pre = report_head(floats) + report_processes(data, floats);
    let t = device_summary(data, floats);
    assert(report_text(data, floats) == pre + t);
    assert((pre + t).subrange(pre.len() as int, (pre + t).len() as int) =~= t);
}

/// A device line begins with "Device: " and the device name and ends the
/// line.
pub proof fn law_device_line_shape(d: DeviceGpuInfo, pct: Seq<char>)
    ensures
        device_line(d, pct).len() > 8 + d.name@.len(),
        device_line(d, pct).take(8 + d.name@.len() as int) == "Device: "@ + d.name@,
        device_line(d, pct).last() == '\n',
{
    reveal_strlit("Device: ");
    let head = "Device: "@ + d.name@;
    let rest = device_gpu_part(d, pct) + device_vram_part(d);
    assert(device_line(d, pct) =~= (head + rest).push('\n'));
    assert((head + rest).push('\n').take(head.len() as int) =~= head);
}

/// Every process name too long for the NAME column is cut between two
/// characters.
pub open spec fn names_cut_cleanly(ps: Seq<GpuProcessInfo>) -> bool {
    forall|i: int|
        0 <= i < ps.len() ==> (byte_len(#[trigger] ps[i].name@) > name_width(ps)
            ==> is_char_boundary(
            encode_utf8(ps[i].name@),
            (if name_width(ps) >= 1 {
                name_width(ps) - 1
            } else {
                0
            }) as int,
        ))
}

fn push_table_header(s: &mut String, w: usize)
    ensures
        final(s)@ == old(s)@ + table_header(w as nat),
{
    let mut line = String::new();
    push_left(&mut line, "PID", 7);
    assert(line@ =~= align_left("PID"@, 7));
    push_char(&mut line, ' ');
    push_left(&mut line, "NAME", w);
    push_char(&mut line, ' ');
    push_char(&mut line, ' ');
    push_right(&mut line, "GPU%", 7);
    push_char(&mut line, ' ');
    push_char(&mut line, ' ');
    push_right(&mut line, "GPU TIME", 10);
    push_char(&mut line, ' ');
    push_char(&mut line, ' ');
    push_right(&mut line, "VRAM", 8);
    push_char(&mut line, '\n');
    s.append(line.as_str());
}

fn push_table_rule(s: &mut String, w: usize)
    ensures
        final(s)@ == old(s)@ + table_rule(w as nat),
{
    let mut line = String::new();
    push_repeat(&mut line, '-', 7);
    assert(line@ =~= repeat_char('-', 7));
    push_char(&mut line, ' ');
    push_repeat(&mut line, '-', w);
    push_char(&mut line, ' ');
    push_char(&mut line, ' ');
    push_repeat(&mut line, '-', 7);
    push_char(&mut line, ' ');
    push_char(&mut line, ' ');
    push_repeat(&mut line, '-', 10);
    push_char(&mut line, ' ');
    push_char(&mut line, ' ');
    push_repeat(&mut line, '-', 8);
    push_char(&mut line, '\n');
    s.append(line.as_str());
}

fn push_process_line(s: &mut String, p: &GpuProcessInfo, pct: &String, w: usize)
    requires
        byte_len(p.name@) > w ==> is_char_boundary(
            encode_utf8(p.name@),
            (if w >= 1 {
                w - 1
            } else {
                0
            }) as int,
        ),
    ensures
        final(s)@ == old(s)@ + process_line(*p, pct@, w as nat),
{
    let mut pid = String::new();
    push_signed_decimal(&mut pid, p.pid as i64);
    assert(pid@ =~= signed_decimal(p.pid as int));
    let mut line = String::new();
    push_left(&mut line, pid.as_str(), 7);
    assert(line@ =~= align_left(signed_decimal(p.pid as int), 7));
    push_char(&mut line, ' ');
    let name = fit_name(&p.name, w);
    push_left(&mut line, name.as_str(), w);
    push_char(&mut line, ' ');
    push_char(&mut line, ' ');
    push_right(&mut line, pct.as_str(), 6);
    push_char(&mut line, '%');
    push_char(&mut line, ' ');
    push_char(&mut line, ' ');
    let t = format_duration_ns(p.gpu_time_ns);
    push_right(&mut line, t.as_str(), 10);
    push_char(&mut line, ' ');
    push_char(&mut line, ' ');
    let v = format_bytes(p.vram_bytes);
    push_right(&mut line, v.as_str(), 8);
    push_char(&mut line, '\n');
    s.append(line.as_str());
}

fn push_device_line(s: &mut String, d: &DeviceGpuInfo, pct: &String)
    ensures
        final(s)@ == old(s)@ + device_line(*d, pct@),
{
    let mut line = String::from_str("Device: ");
    line.append(d.name.as_str());
    let ghost named = line@;
    if d.gpu_percent_bits.is_some() {
        let mut part = String::from_str(" | GPU: ");
        part.append(pct.as_str());
        push_char(&mut part, '%');
        line.append(part.as_str());
    } else {
        assert(line@ =~= named + device_gpu_part(*d, pct@));
    }
    let ghost with_gpu = line@;
    if d.vram_used_bytes.is_some() || d.vram_total_bytes.is_some() {
        let mut part = String::from_str(" | VRAM: ");
        let used = format_bytes(d.vram_used_bytes);
        part.append(used.as_str());
        part.append(" / ");
        let total = format_bytes(d.vram_total_bytes);
        part.append(total.as_str());
        line.append(part.as_str());
    } else {
        assert(line@ =~= with_gpu + device_vram_part(*d));
    }
    push_char(&mut line, '\n');
    s.append(line.as_str());
}

fn push_process_table(s: &mut String, data: &GpuOutput, floats: &FloatTexts)
    requires
        floats.process_percents@.len() == data.processes@.len(),
        names_cut_cleanly(data.processes@),
    ensures
        final(s)@ == old(s)@ + report_processes(*data, *floats),
{
    if data.processes.len() == 0 {
        s.append("No GPU activity detected.  (Run with --all to include idle processes.)\n");
        return;
    }
    let w = name_column_width(&data.processes);
    let mut table = String::new();
    push_table_header(&mut table, w);
    push_table_rule(&mut table, w);
    assert(table@ =~= table_header(w as nat) + table_rule(w as nat));
    let ghost table_start = table@;
    let ghost pcts = texts(floats.process_percents);
    let mut i: usize = 0;
    while i < data.processes.len()
        invariant
            i <= data.processes@.len(),
            w as nat == name_width(data.processes@),
            floats.process_percents@.len() == data.processes@.len(),
            pcts == texts(floats.process_percents),
            names_cut_cleanly(data.processes@),
            table@ == table_start + process_lines(data.processes@, pcts, w as nat, i as nat),
        decreases data.processes.len() - i,
    {
        assert(byte_len(data.processes@[i as int].name@) > w ==> is_char_boundary(
            encode_utf8(data.processes@[i as int].name@),
            (if w >= 1 {
                w - 1
            } else {
                0
            }) as int,
        ));
        push_process_line(&mut table, &data.processes[i], &floats.process_percents[i], w);
        assert(pcts[i as int] == floats.process_percents@[i as int]@);
        i = i + 1;
        assert(table@ =~= table_start + process_lines(data.processes@, pcts, w as nat, i as nat));
    }
    s.append(table.as_str());
}

fn push_device_summary(s: &mut String, data: &GpuOutput, floats: &FloatTexts)
    requires
        floats.device_percents@.len() == data.devices@.len(),
    ensures
        final(s)@ == old(s)@ + report_devices(*data, *floats),
{
    if data.devices.len() == 0 {
        assert(s@ =~= old(s)@ + report_devices(*data, *floats));
        return;
    }
    let mut lines = String::new();
    push_char(&mut lines, '\n');
    let ghost devices_start = lines@;
    let ghost pcts = texts(floats.device_percents);
    let mut j: usize = 0;
    while j < data.devices.len()
        invariant
            j <= data.devices@.len(),
            floats.device_percents@.len() == data.devices@.len(),
            pcts == texts(floats.device_percents),
            lines@ == devices_start + device_lines(data.devices@, pcts, j as nat),
        decreases data.devices.len() - j,
    {
        push_device_line(&mut lines, &data.devices[j], &floats.device_percents[j]);
        assert(pcts[j as int] == floats.device_percents@[j as int]@);
        j = j + 1;
        assert(lines@ =~= devices_start + device_lines(data.devices@, pcts, j as nat));
    }
    assert(lines@ =~= report_devices(*data, *floats));
    s.append(lines.as_str());
}

/// Render `GpuOutput` as a human-readable report.
pub fn render_human(data: &GpuOutput, floats: &FloatTexts) -> (s: String)
    requires
        floats.process_percents@.len() == data.processes@.len(),
        floats.device_percents@.len() == data.devices@.len(),
        names_cut_cleanly(data.processes@),
    ensures
        s@ == report_text(*data, *floats),
        data.devices@.len() > 0 ==> s@.len() >= device_summary(*data, *floats).len() && s@.subrange(
            s@.len() - device_summary(*data, *floats).len(),
            s@.len() as int,
        ) == device_summary(*data, *floats),
{
    let mut s = String::from_str("metalps — GPU Process Monitor\n");
    s.append("Sample interval: ");
    s.append(floats.interval_seconds.as_str());
    s.append("s\n");
    push_char(&mut s, '\n');
    push_process_table(&mut s, data, floats);
    push_device_summary(&mut s, data, floats);
    proof {
        if data.devices@.len() > 0 {
            law_report_ends_with_device_summary(*data, *floats);
        }
    }
    s
}

} // verus!
