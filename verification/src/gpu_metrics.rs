//! The Prometheus gauges that the exporter publishes, and what one update
//! sets them to.
//!
//! An update first resets every gauge and then sets, in order, the gauges of
//! each device and of each process of the latest collection. Processes that
//! have exited are therefore gone from the exported metrics at once instead
//! of lingering with stale values.

use crate::text::{push_signed_decimal, signed_decimal};
use crate::types::{DeviceGpuInfo, GpuOutput, GpuProcessInfo};
use vstd::prelude::*;

verus! {

/// The exported gauge families.
#[derive(Debug, Clone, Copy, PartialEq, Eq, Structural)]
pub enum GaugeKind {
    /// `metalps_device_gpu_utilization_ratio`, labelled by device.
    DeviceGpuUtilization,
    /// `metalps_device_vram_used_bytes`, labelled by device.
    DeviceVramUsed,
    /// `metalps_device_vram_total_bytes`, labelled by device.
    DeviceVramTotal,
    /// `metalps_process_gpu_utilization_ratio`, labelled by pid and name.
    ProcessGpuUtilization,
    /// `metalps_process_gpu_time_seconds_total`, labelled by pid and name.
    ProcessGpuTime,
    /// `metalps_process_vram_bytes`, labelled by pid and name.
    ProcessVram,
}

/// The exported name of a gauge family.
pub open spec fn gauge_name(kind: GaugeKind) -> Seq<char> {
    match kind {
        GaugeKind::DeviceGpuUtilization => "metalps_device_gpu_utilization_ratio"@,
        GaugeKind::DeviceVramUsed => "metalps_device_vram_used_bytes"@,
        GaugeKind::DeviceVramTotal => "metalps_device_vram_total_bytes"@,
        GaugeKind::ProcessGpuUtilization => "metalps_process_gpu_utilization_ratio"@,
        GaugeKind::ProcessGpuTime => "metalps_process_gpu_time_seconds_total"@,
        GaugeKind::ProcessVram => "metalps_process_vram_bytes"@,
    }
}

/// The help text of a gauge family.
pub open spec fn gauge_help(kind: GaugeKind) -> Seq<char> {
    match kind {
        GaugeKind::DeviceGpuUtilization => "Device-wide GPU utilization as a ratio (0.0-1.0)."@,
        GaugeKind::DeviceVramUsed => "In-use GPU memory in bytes."@,
        GaugeKind::DeviceVramTotal => "Total GPU-accessible memory in bytes."@,
        GaugeKind::ProcessGpuUtilization => "Per-process GPU utilization as a ratio (0.0-1.0)."@,
        GaugeKind::ProcessGpuTime => "Cumulative GPU time in seconds since process start."@,
        GaugeKind::ProcessVram => "Per-process GPU memory footprint in bytes."@,
    }
}

/// The label names of a gauge family.
pub open spec fn gauge_label_names(kind: GaugeKind) -> Seq<Seq<char>> {
    match kind {
        GaugeKind::DeviceGpuUtilization => seq!["device"@],
        GaugeKind::DeviceVramUsed => seq!["device"@],
        GaugeKind::DeviceVramTotal => seq!["device"@],
        GaugeKind::ProcessGpuUtilization => seq!["pid"@, "name"@],
        GaugeKind::ProcessGpuTime => seq!["pid"@, "name"@],
        GaugeKind::ProcessVram => seq!["pid"@, "name"@],
    }
}

fn device_label_names() -> (v: Vec<&'static str>)
    ensures
        v@.map_values(|l: &str| l@) == seq!["device"@],
{
    let mut v: Vec<&'static str> = Vec::new();
    v.push("device");
    assert(v@.map_values(|l: &str| l@) =~= seq!["device"@]);
    v
}

fn process_label_names() -> (v: Vec<&'static str>)
    ensures
        v@.map_values(|l: &str| l@) == seq!["pid"@, "name"@],
{
    let mut v: Vec<&'static str> = Vec::new();
    v.push("pid");
    v.push("name");
    assert(v@.map_values(|l: &str| l@) =~= seq!["pid"@, "name"@]);
    v
}

/// The name, help text and label names of a gauge family.
pub fn gauge_family(kind: GaugeKind) -> (f: (&'static str, &'static str, Vec<&'static str>))
    ensures
        f.0@ == gauge_name(kind),
        f.1@ == gauge_help(kind),
        f.2@.map_values(|l: &str| l@) == gauge_label_names(kind),
{
    match kind {
        GaugeKind::DeviceGpuUtilization => (
            "metalps_device_gpu_utilization_ratio",
            "Device-wide GPU utilization as a ratio (0.0-1.0).",
            device_label_names(),
        ),
        GaugeKind::DeviceVramUsed => (
            "metalps_device_vram_used_bytes",
            "In-use GPU memory in bytes.",
            device_label_names(),
        ),
        GaugeKind::DeviceVramTotal => (
            "metalps_device_vram_total_bytes",
            "Total GPU-accessible memory in bytes.",
            device_label_names(),
        ),
        GaugeKind::ProcessGpuUtilization => (
            "metalps_process_gpu_utilization_ratio",
            "Per-process GPU utilization as a ratio (0.0-1.0).",
            process_label_names(),
        ),
        GaugeKind::ProcessGpuTime => (
            "metalps_process_gpu_time_seconds_total",
            "Cumulative GPU time in seconds since process start.",
            process_label_names(),
        ),
        GaugeKind::ProcessVram => (
            "metalps_process_vram_bytes",
            "Per-process GPU memory footprint in bytes.",
            process_label_names(),
        ),
    }
}

/// What a gauge is set to, before the conversion to a double.
#[derive(Debug, Clone, Copy, PartialEq, Eq, Structural)]
pub enum GaugeValue {
    /// A percentage given by the bit pattern of a double, published as a
    /// ratio: the percentage divided by 100.
    PercentAsRatio(u64),
    /// A byte count, published as is.
    Bytes(u64),
    /// A duration in nanoseconds, published in seconds.
    NanosAsSeconds(u64),
}

/// One gauge assignment: a gauge family, its label values, and the value.
#[derive(Debug, Clone)]
pub struct GaugeSetting {
    pub gauge: GaugeKind,
    pub labels: Vec<String>,
    pub value: GaugeValue,
}

/// A gauge assignment as a mathematical value.
pub struct GaugeSettingView {
    pub gauge: GaugeKind,
    pub labels: Seq<Seq<char>>,
    pub value: GaugeValue,
}

impl View for GaugeSetting {
    type V = GaugeSettingView;

    open spec fn view(&self) -> GaugeSettingView {
        GaugeSettingView {
            gauge: self.gauge,
            labels: self.labels@.map_values(|l: String| l@),
            value: self.value,
        }
    }
}

/// One assignment.
pub open spec fn setting(gauge: GaugeKind, labels: Seq<Seq<char>>, value: GaugeValue) -> GaugeSettingView {
    GaugeSettingView { gauge, labels, value }
}

/// The assignments for one device: utilization when known, then in-use
/// memory when known, then total memory when known.
pub open spec fn device_settings(d: DeviceGpuInfo) -> Seq<GaugeSettingView> {
    let labels = seq![d.name@];
    (match d.gpu_percent_bits {
        Some(b) => seq![setting(GaugeKind::DeviceGpuUtilization, labels, GaugeValue::PercentAsRatio(b))],
        None => Seq::<GaugeSettingView>::empty(),
    }) + (match d.vram_used_bytes {
        Some(u) => seq![setting(GaugeKind::DeviceVramUsed, labels, GaugeValue::Bytes(u))],
        None => Seq::<GaugeSettingView>::empty(),
    }) + (match d.vram_total_bytes {
        Some(t) => seq![setting(GaugeKind::DeviceVramTotal, labels, GaugeValue::Bytes(t))],
        None => Seq::<GaugeSettingView>::empty(),
    })
}

/// The labels of a process: its PID in decimal and its name.
pub open spec fn process_labels(p: GpuProcessInfo) -> Seq<Seq<char>> {
    seq![signed_decimal(p.pid as int), p.name@]
}

/// The assignments for one process: utilization, GPU time, then memory
/// when known.
pub open spec fn process_settings(p: GpuProcessInfo) -> Seq<GaugeSettingView> {
    let labels = process_labels(p);
    seq![
        setting(GaugeKind::ProcessGpuUtilization, labels, GaugeValue::PercentAsRatio(p.gpu_percent_bits)),
        setting(GaugeKind::ProcessGpuTime, labels, GaugeValue::NanosAsSeconds(p.gpu_time_ns)),
    ] + (match p.vram_bytes {
        Some(v) => seq![setting(GaugeKind::ProcessVram, labels, GaugeValue::Bytes(v))],
        None => Seq::<GaugeSettingView>::empty(),
    })
}

/// The assignments for a list of devices, in order.
pub open spec fn devices_settings(ds: Seq<DeviceGpuInfo>) -> Seq<GaugeSettingView>
    decreases ds.len(),
{
    if ds.len() == 0 {
        Seq::empty()
    } else {
        devices_settings(ds.drop_last()) + device_settings(ds.last())
    }
}

/// The assignments for a list of processes, in order.
pub open spec fn processes_settings(ps: Seq<GpuProcessInfo>) -> Seq<GaugeSettingView>
    decreases ps.len(),
{
    if ps.len() == 0 {
        Seq::empty()
    } else {
        processes_settings(ps.drop_last()) + process_settings(ps.last())
    }
}

/// The assignments an update applies after the reset: every device's, then
/// every process's.
pub open spec fn update_settings(o: GpuOutput) -> Seq<GaugeSettingView> {
    devices_settings(o.devices@) + processes_settings(o.processes@)
}

/// The value a gauge holds after the assignments `s` applied in order to
/// freshly reset gauges: the last assignment to it, if any.
pub open spec fn gauge_value(s: Seq<GaugeSettingView>, gauge: GaugeKind, labels: Seq<Seq<char>>) -> Option<GaugeValue>
    decreases s.len(),
{
    if s.len() == 0 {
        None
    } else if s.last().gauge == gauge && s.last().labels == labels {
        Some(s.last().value)
    } else {
        gauge_value(s.drop_last(), gauge, labels)
    }
}

/// The gauges of the exporter, as the assignments applied since the last
/// reset.
pub struct GaugeTable {
    settings: Vec<GaugeSetting>,
}

impl View for GaugeTable {
    type V = Seq<GaugeSettingView>;

    closed spec fn view(&self) -> Seq<GaugeSettingView> {
        self.settings@.map_values(|g: GaugeSetting| g@)
    }
}

fn one_label(name: &String) -> (v: Vec<String>)
    ensures
        v@.map_values(|l: String| l@) == seq![name@],
{
    let mut v: Vec<String> = Vec::new();
    v.push(name.clone());
    assert(v@.map_values(|l: String| l@) =~= seq![name@]);
    v
}

fn process_label_values(p: &GpuProcessInfo) -> (v: Vec<String>)
    ensures
        v@.map_values(|l: String| l@) == process_labels(*p),
{
    let mut pid = String::new();
    push_signed_decimal(&mut pid, p.pid as i64);
    let mut v: Vec<String> = Vec::new();
    v.push(pid);
    v.push(p.name.clone());
    assert(v@.map_values(|l: String| l@) =~= process_labels(*p));
    v
}

impl GaugeTable {
    /// Gauges with nothing assigned.
    pub fn new() -> (t: GaugeTable)
        ensures
            t@ == Seq::<GaugeSettingView>::empty(),
    {
        let t = GaugeTable { settings: Vec::new() };
        assert(t@ =~= Seq::<GaugeSettingView>::empty());
        t
    }

    /// The assignments since the last reset, in order.
    pub fn settings(&self) -> (s: &Vec<GaugeSetting>)
        ensures
            s@.map_values(|g: GaugeSetting| g@) == self@,
    {
        &self.settings
    }

    fn push_setting(&mut self, gauge: GaugeKind, labels: Vec<String>, value: GaugeValue)
        ensures
            final(self)@ == old(self)@.push(
                setting(gauge, labels@.map_values(|l: String| l@), value),
            ),
    {
        self.settings.push(GaugeSetting { gauge, labels, value });
        assert(self@ =~= old(self)@.push(setting(gauge, labels@.map_values(|l: String| l@), value)));
    }

    fn update_device(&mut self, device: &DeviceGpuInfo)
        ensures
            final(self)@ == old(self)@ + device_settings(*device),
    {
        if let Some(b) = device.gpu_percent_bits {
            self.push_setting(GaugeKind::DeviceGpuUtilization, one_label(&device.name), GaugeValue::PercentAsRatio(b));
        }
        if let Some(u) = device.vram_used_bytes {
            self.push_setting(GaugeKind::DeviceVramUsed, one_label(&device.name), GaugeValue::Bytes(u));
        }
        if let Some(t) = device.vram_total_bytes {
            self.push_setting(GaugeKind::DeviceVramTotal, one_label(&device.name), GaugeValue::Bytes(t));
        }
        assert(self@ =~= old(self)@ + device_settings(*device));
    }

    fn update_process(&mut self, process: &GpuProcessInfo)
        ensures
            final(self)@ == old(self)@ + process_settings(*process),
    {
        self.push_setting(
            GaugeKind::ProcessGpuUtilization,
            process_label_values(process),
            GaugeValue::PercentAsRatio(process.gpu_percent_bits),
        );
        self.push_setting(
            GaugeKind::ProcessGpuTime,
            process_label_values(process),
            GaugeValue::NanosAsSeconds(process.gpu_time_ns),
        );
        if let Some(v) = process.vram_bytes {
            self.push_setting(GaugeKind::ProcessVram, process_label_values(process), GaugeValue::Bytes(v));
        }
        assert(self@ =~= old(self)@ + process_settings(*process));
    }

    /// Replace all gauge values with fresh data from the latest collection:
    /// reset every gauge, then set those of each device and each process.
    pub fn update(&mut self, output: &GpuOutput)
        ensures
            final(self)@ == update_settings(*output),
    {
        self.settings = Vec::new();
        assert(self@ =~= Seq::<GaugeSettingView>::empty());
        let mut i: usize = 0;
        while i < output.devices.len()
            invariant
                i <= output.devices@.len(),
                self@ == devices_settings(output.devices@.take(i as int)),
            decreases output.devices.len() - i,
        {
            self.update_device(&output.devices[i]);
            assert(output.devices@.take(i + 1).drop_last() =~= output.devices@.take(i as int));
            i = i + 1;
        }
        assert(output.devices@.take(output.devices@.len() as int) =~= output.devices@);
        let ghost after_devices = self@;
        let mut j: usize = 0;
        while j < output.processes.len()
            invariant
                j <= output.processes@.len(),
                after_devices == devices_settings(output.devices@),
                self@ == after_devices + processes_settings(output.processes@.take(j as int)),
            decreases output.processes.len() - j,
        {
            self.update_process(&output.processes[j]);
            assert(output.processes@.take(j + 1).drop_last() =~= output.processes@.take(j as int));
            assert(self@ =~= after_devices + processes_settings(output.processes@.take(j + 1)));
            j = j + 1;
        }
        assert(output.processes@.take(output.processes@.len() as int) =~= output.processes@);
    }

    /// The value a gauge holds: the last assignment to it since the reset.
    pub fn value(&self, gauge: GaugeKind, labels: &Vec<String>) -> (r: Option<GaugeValue>)
        ensures
            r == gauge_value(self@, gauge, labels@.map_values(|l: String| l@)),
    {
        let ghost want = labels@.map_values(|l: String| l@);
        let mut k: usize = self.settings.len();
        assert(self@.take(k as int) =~= self@);
        while k > 0
            invariant
                k <= self.settings@.len(),
                want == labels@.map_values(|l: String| l@),
                gauge_value(self@, gauge, want) == gauge_value(self@.take(k as int), gauge, want),
            decreases k,
        {
            let s = &self.settings[k - 1];
            assert(self@.take(k as int).drop_last() =~= self@.take(k - 1));
            assert(self@.take(k as int).last() == s@);
            if s.gauge == gauge && labels_equal(&s.labels, labels) {
                return Some(s.value);
            }
            k = k - 1;
        }
        None
    }
}

fn labels_equal(a: &Vec<String>, b: &Vec<String>) -> (r: bool)
    ensures
        r == (a@.map_values(|l: String| l@) == b@.map_values(|l: String| l@)),
{
    let ghost va = a@.map_values(|l: String| l@);
    let ghost vb = b@.map_values(|l: String| l@);
    if a.len() != b.len() {
        assert(va.len() != vb.len());
        return false;
    }
    let mut i: usize = 0;
    while i < a.len()
        invariant
            i <= a@.len(),
            a@.len() == b@.len(),
            va == a@.map_values(|l: String| l@),
            vb == b@.map_values(|l: String| l@),
            forall|k: int| 0 <= k < i ==> va[k] == vb[k],
        decreases a.len() - i,
    {
        if a[i] != b[i] {
            assert(va[i as int] != vb[i as int]);
            return false;
        }
        i = i + 1;
    }
    assert(va =~= vb);
    true
}


// ── laws ────────────────────────────────────────────────────────────────────

/// The gauge families labelled by process.
pub open spec fn is_process_gauge(g: GaugeKind) -> bool {
    ||| g == GaugeKind::ProcessGpuUtilization
    ||| g == GaugeKind::ProcessGpuTime
    ||| g == GaugeKind::ProcessVram
}

proof fn lemma_devices_set_device_gauges(ds: Seq<DeviceGpuInfo>)
    ensures
        forall|k: int|
            0 <= k < devices_settings(ds).len() ==> !is_process_gauge(
                (#[trigger] devices_settings(ds)[k]).gauge,
            ),
    decreases ds.len(),
{
    if ds.len() > 0 {
        lemma_devices_set_device_gauges(ds.drop_last());
        let a = devices_settings(ds.drop_last());
        let b = device_settings(ds.last());
        assert forall|k: int| 0 <= k < (a + b).len() implies !is_process_gauge(
            (#[trigger] (a + b)[k]).gauge,
        ) by {
            if k >= a.len() {
                assert((a + b)[k] == b[k - a.len()]);
            }
        }
    }
}

proof fn lemma_processes_labels(ps: Seq<GpuProcessInfo>)
    ensures
        forall|k: int|
            0 <= k < processes_settings(ps).len() ==> exists|i: int|
                0 <= i < ps.len() && (#[trigger] processes_settings(ps)[k]).labels == process_labels(
                    ps[i],
                ),
    decreases ps.len(),
{
    if ps.len() > 0 {
        let init = ps.drop_last();
        lemma_processes_labels(init);
        let a = processes_settings(init);
        let b = process_settings(ps.last());
        assert forall|k: int| 0 <= k < (a + b).len() implies exists|i: int|
            0 <= i < ps.len() && (#[trigger] (a + b)[k]).labels == process_labels(ps[i]) by {
            if k < a.len() {
                let i = choose|i: int| 0 <= i < init.len() && a[k].labels == process_labels(init[i]);
                assert(ps[i] == init[i]);
            } else {
                assert((a + b)[k] == b[k - a.len()]);
                assert(ps[ps.len() - 1] == ps.last());
            }
        }
    }
}

proof fn lemma_unassigned_gauge(s: Seq<GaugeSettingView>, gauge: GaugeKind, labels: Seq<Seq<char>>)
    requires
        forall|k: int| 0 <= k < s.len() ==> !((#[trigger] s[k]).gauge == gauge && s[k].labels == labels),
    ensures
        gauge_value(s, gauge, labels) is None,
    decreases s.len(),
{
    if s.len() > 0 {
        assert(s.last() == s[s.len() - 1]);
        lemma_unassigned_gauge(s.drop_last(), gauge, labels);
    }
}

proof fn lemma_assigned_gauge(s: Seq<GaugeSettingView>, k: int, gauge: GaugeKind, labels: Seq<Seq<char>>)
    requires
        0 <= k < s.len(),
        s[k].gauge == gauge,
        s[k].labels == labels,
    ensures
        gauge_value(s, gauge, labels) is Some,
    decreases s.len(),
{
    if k < s.len() - 1 {
        if !(s.last().gauge == gauge && s.last().labels == labels) {
            assert(s.drop_last()[k] == s[k]);
            lemma_assigned_gauge(s.drop_last(), k, gauge, labels);
        }
    }
}

/// After an update, a process that is not in the latest collection has no
/// gauge value left: the reset-then-set update drops exited processes.
pub proof fn law_update_drops_departed_processes(output: GpuOutput, gauge: GaugeKind, labels: Seq<Seq<char>>)
    requires
        is_process_gauge(gauge),
        forall|i: int| 0 <= i < output.processes@.len() ==> process_labels(output.processes@[i]) != labels,
    ensures
        gauge_value(update_settings(output), gauge, labels) is None,
{
    let a = devices_settings(output.devices@);
    let b = processes_settings(output.processes@);
    lemma_devices_set_device_gauges(output.devices@);
    lemma_processes_labels(output.processes@);
    assert forall|k: int| 0 <= k < (a + b).len() implies !((#[trigger] (a + b)[k]).gauge == gauge
        && (a + b)[k].labels == labels) by {
        if k < a.len() {
            assert((a + b)[k] == a[k]);
        } else {
            assert((a + b)[k] == b[k - a.len()]);
            let i = choose|i: int|
                0 <= i < output.processes@.len() && b[k - a.len()].labels == process_labels(
                    output.processes@[i],
                );
        }
    }
    lemma_unassigned_gauge(a + b, gauge, labels);
}

proof fn lemma_process_settings_present(ps: Seq<GpuProcessInfo>, i: int)
    requires
        0 <= i < ps.len(),
    ensures
        exists|k: int|
            0 <= k < processes_settings(ps).len() && (#[trigger] processes_settings(ps)[k]).gauge
                == GaugeKind::ProcessGpuUtilization && processes_settings(ps)[k].labels
                == process_labels(ps[i]),
        exists|k: int|
            0 <= k < processes_settings(ps).len() && (#[trigger] processes_settings(ps)[k]).gauge
                == GaugeKind::ProcessGpuTime && processes_settings(ps)[k].labels == process_labels(
                ps[i],
            ),
    decreases ps.len(),
{
    let init = ps.drop_last();
    let a = processes_settings(init);
    let b = process_settings(ps.last());
    let all = processes_settings(ps);
    assert(all == a + b);
    let labels = process_labels(ps[i]);
    if i < ps.len() - 1 {
        lemma_process_settings_present(init, i);
        assert(init[i] == ps[i]);
        let k1 = choose|k: int|
            0 <= k < a.len() && (#[trigger] a[k]).gauge == GaugeKind::ProcessGpuUtilization
                && a[k].labels == process_labels(init[i]);
        let k2 = choose|k: int|
            0 <= k < a.len() && (#[trigger] a[k]).gauge == GaugeKind::ProcessGpuTime && a[k].labels
                == process_labels(init[i]);
        assert(all[k1] == a[k1]);
        assert(all[k2] == a[k2]);
        assert(all[k1].gauge == GaugeKind::ProcessGpuUtilization && all[k1].labels == labels);
        assert(all[k2].gauge == GaugeKind::ProcessGpuTime && all[k2].labels == labels);
    } else {
        assert(ps[i] == ps.last());
        let k1 = a.len() as int;
        let k2 = a.len() as int + 1;
        assert(all[k1] == b[0]);
        assert(all[k2] == b[1]);
        assert(all[k1].gauge == GaugeKind::ProcessGpuUtilization && all[k1].labels == labels);
        assert(all[k2].gauge == GaugeKind::ProcessGpuTime && all[k2].labels == labels);
    }
}

/// After an update, every process of the latest collection has a
/// utilization gauge and a GPU-time gauge.
pub proof fn law_update_sets_current_processes(output: GpuOutput, i: int)
    requires
        0 <= i < output.processes@.len(),
    ensures
        gauge_value(
            update_settings(output),
            GaugeKind::ProcessGpuUtilization,
            process_labels(output.processes@[i]),
        ) is Some,
        gauge_value(
            update_settings(output),
            GaugeKind::ProcessGpuTime,
            process_labels(output.processes@[i]),
        ) is Some,
{
    let a = devices_settings(output.devices@);
    let b = processes_settings(output.processes@);
    let labels = process_labels(output.processes@[i]);
    lemma_process_settings_present(output.processes@, i);
    let k1 = choose|k: int|
        0 <= k < b.len() && (#[trigger] b[k]).gauge == GaugeKind::ProcessGpuUtilization
            && b[k].labels == labels;
    let k2 = choose|k: int|
        0 <= k < b.len() && (#[trigger] b[k]).gauge == GaugeKind::ProcessGpuTime && b[k].labels
            == labels;
    assert((a + b)[a.len() as int + k1] == b[k1]);
    assert((a + b)[a.len() as int + k2] == b[k2]);
    lemma_assigned_gauge(a + b, a.len() as int + k1, GaugeKind::ProcessGpuUtilization, labels);
    lemma_assigned_gauge(a + b, a.len() as int + k2, GaugeKind::ProcessGpuTime, labels);
}

/// Every assignment of `s` has as many label values as its family has
/// label names.
pub open spec fn labels_fit_families(s: Seq<GaugeSettingView>) -> bool {
    forall|k: int| 0 <= k < s.len() ==> (#[trigger] s[k]).labels.len() == gauge_label_names(s[k].gauge).len()
}

proof fn lemma_fit_concat(a: Seq<GaugeSettingView>, b: Seq<GaugeSettingView>)
    requires
        labels_fit_families(a),
        labels_fit_families(b),
    ensures
        labels_fit_families(a + b),
{
    assert forall|k: int| 0 <= k < (a + b).len() implies (#[trigger] (a + b)[k]).labels.len()
        == gauge_label_names((a + b)[k].gauge).len() by {
        if k < a.len() {
            assert((a + b)[k] == a[k]);
        } else {
            assert((a + b)[k] == b[k - a.len()]);
        }
    }
}

proof fn lemma_devices_fit(ds: Seq<DeviceGpuInfo>)
    ensures
        labels_fit_families(devices_settings(ds)),
    decreases ds.len(),
{
    if ds.len() > 0 {
        lemma_devices_fit(ds.drop_last());
        let d = ds.last();
        let x = match d.gpu_percent_bits {
            Some(b) => seq![setting(GaugeKind::DeviceGpuUtilization, seq![d.name@], GaugeValue::PercentAsRatio(b))],
            None => Seq::<GaugeSettingView>::empty(),
        };
        let y = match d.vram_used_bytes {
            Some(u) => seq![setting(GaugeKind::DeviceVramUsed, seq![d.name@], GaugeValue::Bytes(u))],
            None => Seq::<GaugeSettingView>::empty(),
        };
        let z = match d.vram_total_bytes {
            Some(t) => seq![setting(GaugeKind::DeviceVramTotal, seq![d.name@], GaugeValue::Bytes(t))],
            None => Seq::<GaugeSettingView>::empty(),
        };
        assert(labels_fit_families(x));
        assert(labels_fit_families(y));
        assert(labels_fit_families(z));
        lemma_fit_concat(x, y);
        lemma_fit_concat(x + y, z);
        lemma_fit_concat(devices_settings(ds.drop_last()), device_settings(d));
    }
}

proof fn lemma_processes_fit(ps: Seq<GpuProcessInfo>)
    ensures
        labels_fit_families(processes_settings(ps)),
    decreases ps.len(),
{
    if ps.len() > 0 {
        lemma_processes_fit(ps.drop_last());
        let p = ps.last();
        let labels = process_labels(p);
        let x = seq![
            setting(GaugeKind::ProcessGpuUtilization, labels, GaugeValue::PercentAsRatio(p.gpu_percent_bits)),
            setting(GaugeKind::ProcessGpuTime, labels, GaugeValue::NanosAsSeconds(p.gpu_time_ns)),
        ];
        let y = match p.vram_bytes {
            Some(v) => seq![setting(GaugeKind::ProcessVram, labels, GaugeValue::Bytes(v))],
            None => Seq::<GaugeSettingView>::empty(),
        };
        assert(labels_fit_families(x));
        assert(labels_fit_families(y));
        lemma_fit_concat(x, y);
        lemma_fit_concat(processes_settings(ps.drop_last()), process_settings(p));
    }
}

/// Every assignment an update makes has exactly as many label values as its
/// gauge family has label names, so setting the gauge never meets a label
/// count mismatch.
pub proof fn law_update_labels_fit_families(output: GpuOutput)
    ensures
        labels_fit_families(update_settings(output)),
{
    lemma_devices_fit(output.devices@);
    lemma_processes_fit(output.processes@);
    lemma_fit_concat(devices_settings(output.devices@), processes_settings(output.processes@));
}

/// No assignment of `t` is to the gauge `gauge` with labels `labels`.
pub open spec fn avoids(t: Seq<GaugeSettingView>, gauge: GaugeKind, labels: Seq<Seq<char>>) -> bool {
    forall|k: int| 0 <= k < t.len() ==> !((#[trigger] t[k]).gauge == gauge && t[k].labels == labels)
}

proof fn lemma_value_skips_avoiding(s: Seq<GaugeSettingView>, t: Seq<GaugeSettingView>, gauge: GaugeKind, labels: Seq<Seq<char>>)
    requires
        avoids(t, gauge, labels),
    ensures
        gauge_value(s + t, gauge, labels) == gauge_value(s, gauge, labels),
    decreases t.len(),
{
    if t.len() == 0 {
        assert(s + t =~= s);
    } else {
        assert((s + t).drop_last() =~= s + t.drop_last());
        assert((s + t).last() == t[t.len() - 1]);
        assert(avoids(t.drop_last(), gauge, labels)) by {
            assert forall|k: int| 0 <= k < t.drop_last().len() implies !((#[trigger] t.drop_last()[k]).gauge == gauge
                && t.drop_last()[k].labels == labels) by {
                assert(t.drop_last()[k] == t[k]);
            }
        }
        lemma_value_skips_avoiding(s, t.drop_last(), gauge, labels);
    }
}

proof fn lemma_value_of_later(s: Seq<GaugeSettingView>, t: Seq<GaugeSettingView>, gauge: GaugeKind, labels: Seq<Seq<char>>)
    requires
        gauge_value(t, gauge, labels) is Some,
    ensures
        gauge_value(s + t, gauge, labels) == gauge_value(t, gauge, labels),
    decreases t.len(),
{
    assert((s + t).drop_last() =~= s + t.drop_last());
    assert((s + t).last() == t.last());
    if !(t.last().gauge == gauge && t.last().labels == labels) {
        lemma_value_of_later(s, t.drop_last(), gauge, labels);
    }
}

proof fn lemma_devices_settings_append(a: Seq<DeviceGpuInfo>, b: Seq<DeviceGpuInfo>)
    ensures
        devices_settings(a + b) == devices_settings(a) + devices_settings(b),
    decreases b.len(),
{
    if b.len() == 0 {
        assert(a + b =~= a);
        assert(devices_settings(a) + devices_settings(b) =~= devices_settings(a));
    } else {
        lemma_devices_settings_append(a, b.drop_last());
        assert((a + b).drop_last() =~= a + b.drop_last());
        assert((a + b).last() == b.last());
        assert(devices_settings(a + b) =~= devices_settings(a) + devices_settings(b));
    }
}

proof fn lemma_processes_settings_append(a: Seq<GpuProcessInfo>, b: Seq<GpuProcessInfo>)
    ensures
        processes_settings(a + b) == processes_settings(a) + processes_settings(b),
    decreases b.len(),
{
    if b.len() == 0 {
        assert(a + b =~= a);
        assert(processes_settings(a) + processes_settings(b) =~= processes_settings(a));
    } else {
        lemma_processes_settings_append(a, b.drop_last());
        assert((a + b).drop_last() =~= a + b.drop_last());
        assert((a + b).last() == b.last());
        assert(processes_settings(a + b) =~= processes_settings(a) + processes_settings(b));
    }
}

proof fn lemma_devices_labels(ds: Seq<DeviceGpuInfo>)
    ensures
        forall|k: int|
            0 <= k < devices_settings(ds).len() ==> exists|i: int|
                0 <= i < ds.len() && (#[trigger] devices_settings(ds)[k]).labels == seq![ds[i].name@],
    decreases ds.len(),
{
    if ds.len() > 0 {
        let init = ds.drop_last();
        lemma_devices_labels(init);
        let a = devices_settings(init);
        let b = device_settings(ds.last());
        assert forall|k: int| 0 <= k < (a + b).len() implies exists|i: int|
            0 <= i < ds.len() && (#[trigger] (a + b)[k]).labels == seq![ds[i].name@] by {
            if k < a.len() {
                let i = choose|i: int| 0 <= i < init.len() && a[k].labels == seq![init[i].name@];
                assert(ds[i] == init[i]);
                assert((a + b)[k] == a[k]);
            } else {
                assert((a + b)[k] == b[k - a.len()]);
                assert(ds[ds.len() - 1] == ds.last());
            }
        }
    }
}

proof fn lemma_processes_are_process_gauges(ps: Seq<GpuProcessInfo>)
    ensures
        forall|k: int| 0 <= k < processes_settings(ps).len() ==> is_process_gauge((#[trigger] processes_settings(ps)[k]).gauge),
    decreases ps.len(),
{
    if ps.len() > 0 {
        lemma_processes_are_process_gauges(ps.drop_last());
        let a = processes_settings(ps.drop_last());
        let b = process_settings(ps.last());
        assert forall|k: int| 0 <= k < (a + b).len() implies is_process_gauge((#[trigger] (a + b)[k]).gauge) by {
            if k < a.len() {
                assert((a + b)[k] == a[k]);
            } else {
                assert((a + b)[k] == b[k - a.len()]);
            }
        }
    }
}

/// After an update, every device of the output that no later device
/// shares a name with has its own gauges: utilization, in-use memory and
/// total memory are those it reports, for each it reports.
pub proof fn law_update_sets_device_values(output: GpuOutput, i: int)
    requires
        0 <= i < output.devices@.len(),
        forall|j: int| i < j < output.devices@.len() ==> (#[trigger] output.devices@[j]).name@ != output.devices@[i].name@,
    ensures
        output.devices@[i].gpu_percent_bits matches Some(b) ==> gauge_value(
            update_settings(output),
            GaugeKind::DeviceGpuUtilization,
            seq![output.devices@[i].name@],
        ) == Some(GaugeValue::PercentAsRatio(b)),
        output.devices@[i].vram_used_bytes matches Some(u) ==> gauge_value(
            update_settings(output),
            GaugeKind::DeviceVramUsed,
            seq![output.devices@[i].name@],
        ) == Some(GaugeValue::Bytes(u)),
        output.devices@[i].vram_total_bytes matches Some(t) ==> gauge_value(
            update_settings(output),
            GaugeKind::DeviceVramTotal,
            seq![output.devices@[i].name@],
        ) == Some(GaugeValue::Bytes(t)),
{
    let ds = output.devices@;
    let d = ds[i];
    let labels = seq![d.name@];
    let before = ds.take(i);
    let later = ds.skip(i + 1);
    assert(ds =~= before + seq![d] + later);
    lemma_devices_settings_append(before + seq![d], later);
    lemma_devices_settings_append(before, seq![d]);
    assert(seq![d].drop_last() =~= Seq::<DeviceGpuInfo>::empty());
    assert(seq![d].last() == d);
    assert(devices_settings(seq![d].drop_last()) == Seq::<GaugeSettingView>::empty());
    assert(devices_settings(seq![d]) =~= device_settings(d));
    let ps = processes_settings(output.processes@);
    let dl = devices_settings(later);
    let dd = device_settings(d);
    let db = devices_settings(before);
    lemma_devices_labels(later);
    lemma_processes_are_process_gauges(output.processes@);
    let x = match d.gpu_percent_bits {
        Some(b) => seq![setting(GaugeKind::DeviceGpuUtilization, labels, GaugeValue::PercentAsRatio(b))],
        None => Seq::<GaugeSettingView>::empty(),
    };
    let y = match d.vram_used_bytes {
        Some(u) => seq![setting(GaugeKind::DeviceVramUsed, labels, GaugeValue::Bytes(u))],
        None => Seq::<GaugeSettingView>::empty(),
    };
    let z = match d.vram_total_bytes {
        Some(t) => seq![setting(GaugeKind::DeviceVramTotal, labels, GaugeValue::Bytes(t))],
        None => Seq::<GaugeSettingView>::empty(),
    };
    assert(dd == x + y + z);
    assert(update_settings(output) =~= (db + dd) + (dl + ps));
    let kinds = seq![GaugeKind::DeviceGpuUtilization, GaugeKind::DeviceVramUsed, GaugeKind::DeviceVramTotal];
    assert forall|n: int| 0 <= n < 3 implies avoids(dl + ps, #[trigger] kinds[n], labels) by {
        let g = kinds[n];
        assert forall|k: int| 0 <= k < (dl + ps).len() implies !((#[trigger] (dl + ps)[k]).gauge == g
            && (dl + ps)[k].labels == labels) by {
            if k < dl.len() {
                assert((dl + ps)[k] == dl[k]);
                let m = choose|m: int| 0 <= m < later.len() && dl[k].labels == seq![later[m].name@];
                assert(later[m] == ds[i + 1 + m]);
                if dl[k].labels == labels {
                    assert(dl[k].labels[0] == later[m].name@);
                    assert(labels[0] == d.name@);
                }
            } else {
                assert((dl + ps)[k] == ps[k - dl.len()]);
            }
        }
    }
    assert(kinds[0] == GaugeKind::DeviceGpuUtilization);
    assert(kinds[1] == GaugeKind::DeviceVramUsed);
    assert(kinds[2] == GaugeKind::DeviceVramTotal);
    if let Some(b) = d.gpu_percent_bits {
        let g = GaugeKind::DeviceGpuUtilization;
        lemma_value_skips_avoiding(db + dd, dl + ps, g, labels);
        assert(avoids(y + z, g, labels));
        assert(gauge_value(x, g, labels) == Some(GaugeValue::PercentAsRatio(b)));
        lemma_value_skips_avoiding(x, y + z, g, labels);
        assert(x + y + z =~= x + (y + z));
        lemma_value_of_later(db, dd, g, labels);
        assert(db + dd =~= db + dd);
    }
    if let Some(u) = d.vram_used_bytes {
        let g = GaugeKind::DeviceVramUsed;
        lemma_value_skips_avoiding(db + dd, dl + ps, g, labels);
        assert(avoids(z, g, labels));
        lemma_value_skips_avoiding(x + y, z, g, labels);
        assert(gauge_value(y, g, labels) == Some(GaugeValue::Bytes(u)));
        lemma_value_of_later(x, y, g, labels);
        lemma_value_of_later(db, dd, g, labels);
    }
    if let Some(t) = d.vram_total_bytes {
        let g = GaugeKind::DeviceVramTotal;
        lemma_value_skips_avoiding(db + dd, dl + ps, g, labels);
        assert(gauge_value(z, g, labels) == Some(GaugeValue::Bytes(t)));
        lemma_value_of_later(x + y, z, g, labels);
        lemma_value_of_later(db, dd, g, labels);
    }
}

/// After an update, every process of the output that no later process
/// shares its labels (PID and name) with has its own gauges: utilization,
/// GPU time, and memory when it reports one.
pub proof fn law_update_sets_process_values(output: GpuOutput, i: int)
    requires
        0 <= i < output.processes@.len(),
        forall|j: int|
            i < j < output.processes@.len() ==> process_labels(#[trigger] output.processes@[j])
                != process_labels(output.processes@[i]),
    ensures
        gauge_value(
            update_settings(output),
            GaugeKind::ProcessGpuUtilization,
            process_labels(output.processes@[i]),
        ) == Some(GaugeValue::PercentAsRatio(output.processes@[i].gpu_percent_bits)),
        gauge_value(update_settings(output), GaugeKind::ProcessGpuTime, process_labels(output.processes@[i]))
            == Some(GaugeValue::NanosAsSeconds(output.processes@[i].gpu_time_ns)),
        output.processes@[i].vram_bytes matches Some(v) ==> gauge_value(
            update_settings(output),
            GaugeKind::ProcessVram,
            process_labels(output.processes@[i]),
        ) == Some(GaugeValue::Bytes(v)),
{
    let ps = output.processes@;
    let p = ps[i];
    let labels = process_labels(p);
    let before = ps.take(i);
    let later = ps.skip(i + 1);
    assert(ps =~= before + seq![p] + later);
    lemma_processes_settings_append(before + seq![p], later);
    lemma_processes_settings_append(before, seq![p]);
    assert(seq![p].drop_last() =~= Seq::<GpuProcessInfo>::empty());
    assert(seq![p].last() == p);
    assert(processes_settings(seq![p].drop_last()) == Seq::<GaugeSettingView>::empty());
    assert(processes_settings(seq![p]) =~= process_settings(p));
    let ds = devices_settings(output.devices@);
    let pb = processes_settings(before);
    let pp = process_settings(p);
    let pl = processes_settings(later);
    lemma_processes_labels(later);
    let x = seq![
        setting(GaugeKind::ProcessGpuUtilization, labels, GaugeValue::PercentAsRatio(p.gpu_percent_bits)),
        setting(GaugeKind::ProcessGpuTime, labels, GaugeValue::NanosAsSeconds(p.gpu_time_ns)),
    ];
    let y = match p.vram_bytes {
        Some(v) => seq![setting(GaugeKind::ProcessVram, labels, GaugeValue::Bytes(v))],
        None => Seq::<GaugeSettingView>::empty(),
    };
    assert(pp == x + y);
    assert(update_settings(output) =~= (ds + pb + pp) + pl);
    assert forall|g: GaugeKind| avoids(pl, g, labels) by {
        assert forall|k: int| 0 <= k < pl.len() implies !((#[trigger] pl[k]).gauge == g && pl[k].labels == labels) by {
            let m = choose|m: int| 0 <= m < later.len() && pl[k].labels == process_labels(later[m]);
            assert(later[m] == ps[i + 1 + m]);
        }
    }
    let g1 = GaugeKind::ProcessGpuUtilization;
    let g2 = GaugeKind::ProcessGpuTime;
    let g3 = GaugeKind::ProcessVram;
    lemma_value_skips_avoiding(ds + pb + pp, pl, g1, labels);
    lemma_value_skips_avoiding(ds + pb + pp, pl, g2, labels);
    lemma_value_skips_avoiding(ds + pb + pp, pl, g3, labels);
    assert(x.drop_last() =~= seq![x[0]]);
    assert(seq![x[0]].drop_last() =~= Seq::<GaugeSettingView>::empty());
    assert(gauge_value(x, g2, labels) == Some(GaugeValue::NanosAsSeconds(p.gpu_time_ns)));
    assert(gauge_value(seq![x[0]], g1, labels) == Some(GaugeValue::PercentAsRatio(p.gpu_percent_bits)));
    assert(gauge_value(x, g1, labels) == Some(GaugeValue::PercentAsRatio(p.gpu_percent_bits)));
    assert(avoids(y, g1, labels));
    assert(avoids(y, g2, labels));
    lemma_value_skips_avoiding(x, y, g1, labels);
    lemma_value_skips_avoiding(x, y, g2, labels);
    lemma_value_of_later(ds + pb, pp, g1, labels);
    lemma_value_of_later(ds + pb, pp, g2, labels);
    if let Some(v) = p.vram_bytes {
        assert(gauge_value(y, g3, labels) == Some(GaugeValue::Bytes(v)));
        lemma_value_of_later(x, y, g3, labels);
        lemma_value_of_later(ds + pb, pp, g3, labels);
    }
}

} // verus!
