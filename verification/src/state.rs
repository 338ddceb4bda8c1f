use vstd::prelude::*;

use crate::history::{pushed, resized, History};
use crate::monitor::{startup_windows, ComponentKind, Sampling, Visibility};

verus! {

/// What the applet is configured with: its panels in order, which of them
/// are shown, and how each measurement is sampled.
pub struct Settings {
    pub components: Vec<ComponentKind>,
    pub visibility: Visibility,
    pub sampling: Sampling,
}

/// The settings as plain values.
pub struct SettingsView {
    pub components: Seq<ComponentKind>,
    pub visibility: Visibility,
    pub sampling: Sampling,
}

impl View for Settings {
    type V = SettingsView;

    open spec fn view(&self) -> SettingsView {
        SettingsView {
            components: self.components@,
            visibility: self.visibility,
            sampling: self.sampling,
        }
    }
}

/// The measurements the applet keeps: one window of samples per measurement,
/// and per graphics card one window of its load and one of its memory in use.
/// `C` is the type of a processor load sample; `cpu_fill` is the value that
/// pads a processor window when it grows.
pub struct Monitor<C> {
    pub settings: Settings,
    pub cpu_fill: C,
    pub global_cpu: History<C>,
    pub ram: History,
    pub swap: History,
    pub upload: History,
    pub download: History,
    pub disk_read: History,
    pub disk_write: History,
    pub gpu_usage: Vec<History>,
    pub vram: Vec<History>,
}

/// The monitor's state as plain values.
pub struct MonitorView<C> {
    pub settings: SettingsView,
    pub cpu_fill: C,
    pub global_cpu: Seq<C>,
    pub ram: Seq<u64>,
    pub swap: Seq<u64>,
    pub upload: Seq<u64>,
    pub download: Seq<u64>,
    pub disk_read: Seq<u64>,
    pub disk_write: Seq<u64>,
    pub gpu_usage: Seq<Seq<u64>>,
    pub vram: Seq<Seq<u64>>,
}

/// The views of a row of windows.
pub open spec fn windows_view(hs: Seq<History>) -> Seq<Seq<u64>> {
    Seq::new(hs.len(), |i: int| hs[i]@)
}

impl<C> View for Monitor<C> {
    type V = MonitorView<C>;

    open spec fn view(&self) -> MonitorView<C> {
        MonitorView {
            settings: self.settings@,
            cpu_fill: self.cpu_fill,
            global_cpu: self.global_cpu@,
            ram: self.ram@,
            swap: self.swap@,
            upload: self.upload@,
            download: self.download@,
            disk_read: self.disk_read@,
            disk_write: self.disk_write@,
            gpu_usage: windows_view(self.gpu_usage@),
            vram: windows_view(self.vram@),
        }
    }
}

/// What happens to the monitor: the user shows or hides a panel, new settings
/// arrive, or a new reading of a measurement comes in. A network reading
/// holds per interface the bytes (received, transmitted) since the last
/// reading; a disk reading per disk the bytes (read, written); a graphics
/// reading per card its (load, memory in use).
pub enum Event<C> {
    ToggleVisibility(ComponentKind),
    Settings(Settings),
    CpuSample(C),
    MemSample { ram: u64, swap: u64 },
    NetSample(Vec<(u64, u64)>),
    DiskSample(Vec<(u64, u64)>),
    GpuSample(Vec<(u64, u64)>),
}

/// An event as plain values.
pub enum EventView<C> {
    ToggleVisibility(ComponentKind),
    Settings(SettingsView),
    CpuSample(C),
    MemSample { ram: u64, swap: u64 },
    NetSample(Seq<(u64, u64)>),
    DiskSample(Seq<(u64, u64)>),
    GpuSample(Seq<(u64, u64)>),
}

impl<C> View for Event<C> {
    type V = EventView<C>;

    open spec fn view(&self) -> EventView<C> {
        match self {
            Event::ToggleVisibility(k) => EventView::ToggleVisibility(*k),
            Event::Settings(s) => EventView::Settings(s@),
            Event::CpuSample(c) => EventView::CpuSample(*c),
            Event::MemSample { ram, swap } => EventView::MemSample { ram: *ram, swap: *swap },
            Event::NetSample(v) => EventView::NetSample(v@),
            Event::DiskSample(v) => EventView::DiskSample(v@),
            Event::GpuSample(v) => EventView::GpuSample(v@),
        }
    }
}

/// What the caller has to do after an event: nothing, or store the new
/// visibility of the panels in the applet's configuration.
#[derive(Clone, Copy, Debug, PartialEq, Eq, Structural)]
pub enum Action {
    Nothing,
    SaveVisibility,
}

/// The sum of the first members of the pairs.
pub open spec fn total_first(s: Seq<(u64, u64)>) -> nat
    decreases s.len(),
{
    if s.len() == 0 {
        0
    } else {
        total_first(s.drop_last()) + s.last().0 as nat
    }
}

/// The sum of the second members of the pairs.
pub open spec fn total_second(s: Seq<(u64, u64)>) -> nat
    decreases s.len(),
{
    if s.len() == 0 {
        0
    } else {
        total_second(s.drop_last()) + s.last().1 as nat
    }
}

/// Whether the monitor can take the event: both sums of a network or disk
/// reading fit in 64 bits, and a graphics reading has no more cards than the
/// monitor keeps windows for.
pub open spec fn admits<C>(m: MonitorView<C>, e: EventView<C>) -> bool {
    match e {
        EventView::NetSample(v) => total_first(v) <= u64::MAX && total_second(v) <= u64::MAX,
        EventView::DiskSample(v) => total_first(v) <= u64::MAX && total_second(v) <= u64::MAX,
        EventView::GpuSample(v) => v.len() <= m.gpu_usage.len() && v.len() <= m.vram.len(),
        _ => true,
    }
}

/// Each window of `hs` with the matching value of `v` pushed, the first
/// members of the pairs when `first`, else the second ones; windows past the
/// end of `v` stay as they are.
pub open spec fn push_each(hs: Seq<Seq<u64>>, v: Seq<(u64, u64)>, first: bool) -> Seq<Seq<u64>> {
    Seq::new(
        hs.len(),
        |i: int|
            if i < v.len() {
                pushed(hs[i], if first { v[i].0 } else { v[i].1 })
            } else {
                hs[i]
            },
    )
}

/// Each window of `hs` brought to `len` samples, padded with zeros.
pub open spec fn resize_each(hs: Seq<Seq<u64>>, len: nat) -> Seq<Seq<u64>> {
    Seq::new(hs.len(), |i: int| resized(hs[i], len, 0u64))
}

/// The monitor after an event.
///
/// New settings resize every window to the sampling window of its kind,
/// except the graphics card windows, which take the processor's window.
pub open spec fn step<C>(m: MonitorView<C>, e: EventView<C>) -> MonitorView<C> {
    match e {
        EventView::ToggleVisibility(kind) => MonitorView {
            settings: SettingsView { visibility: m.settings.visibility.toggled(kind), ..m.settings },
            ..m
        },
        EventView::Settings(s) => MonitorView {
            settings: s,
            global_cpu: resized(m.global_cpu, s.sampling.cpu.sampling_window as nat, m.cpu_fill),
            ram: resized(m.ram, s.sampling.mem.sampling_window as nat, 0u64),
            swap: resized(m.swap, s.sampling.mem.sampling_window as nat, 0u64),
            upload: resized(m.upload, s.sampling.net.sampling_window as nat, 0u64),
            download: resized(m.download, s.sampling.net.sampling_window as nat, 0u64),
            disk_read: resized(m.disk_read, s.sampling.disk.sampling_window as nat, 0u64),
            disk_write: resized(m.disk_write, s.sampling.disk.sampling_window as nat, 0u64),
            gpu_usage: resize_each(m.gpu_usage, s.sampling.cpu.sampling_window as nat),
            vram: resize_each(m.vram, s.sampling.cpu.sampling_window as nat),
            ..m
        },
        EventView::CpuSample(c) => MonitorView { global_cpu: pushed(m.global_cpu, c), ..m },
        EventView::MemSample { ram, swap } => MonitorView {
            ram: pushed(m.ram, ram),
            swap: pushed(m.swap, swap),
            ..m
        },
        EventView::NetSample(v) => MonitorView {
            download: pushed(m.download, total_first(v) as u64),
            upload: pushed(m.upload, total_second(v) as u64),
            ..m
        },
        EventView::DiskSample(v) => MonitorView {
            disk_read: pushed(m.disk_read, total_first(v) as u64),
            disk_write: pushed(m.disk_write, total_second(v) as u64),
            ..m
        },
        EventView::GpuSample(v) => MonitorView {
            gpu_usage: push_each(m.gpu_usage, v, true),
            vram: push_each(m.vram, v, false),
            ..m
        },
    }
}

/// What the caller has to do after the event.
pub open spec fn action_of<C>(e: EventView<C>) -> Action {
    match e {
        EventView::ToggleVisibility(_) => Action::SaveVisibility,
        _ => Action::Nothing,
    }
}


/// The window size of `kind` when the applet starts with the settings `s`:
/// that of its sampling settings when its panel is configured, else zero.
pub open spec fn start_window(s: SettingsView, kind: ComponentKind) -> nat {
    if s.components.contains(kind) {
        s.sampling.of(kind).sampling_window as nat
    } else {
        0
    }
}

/// A window of `n` zero samples.
pub open spec fn zeros(n: nat) -> Seq<u64> {
    Seq::new(n, |i: int| 0u64)
}

/// The monitor when the applet starts with the settings `s` on a machine
/// with `num_gpus` graphics cards: every window is at its start size and
/// filled with zeros (with `cpu_fill` for the processor window).
pub open spec fn initial<C>(s: SettingsView, num_gpus: nat, cpu_fill: C) -> MonitorView<C> {
    MonitorView {
        settings: s,
        cpu_fill: cpu_fill,
        global_cpu: Seq::new(start_window(s, ComponentKind::Cpu), |i: int| cpu_fill),
        ram: zeros(start_window(s, ComponentKind::Mem)),
        swap: zeros(start_window(s, ComponentKind::Mem)),
        upload: zeros(start_window(s, ComponentKind::Net)),
        download: zeros(start_window(s, ComponentKind::Net)),
        disk_read: zeros(start_window(s, ComponentKind::Disk)),
        disk_write: zeros(start_window(s, ComponentKind::Disk)),
        gpu_usage: Seq::new(num_gpus, |i: int| zeros(start_window(s, ComponentKind::Gpu))),
        vram: Seq::new(num_gpus, |i: int| zeros(start_window(s, ComponentKind::Gpu))),
    }
}

/// A prefix of a row of pairs sums to no more than the whole row.
proof fn lemma_totals_of_prefix(s: Seq<(u64, u64)>, i: int)
    requires
        0 <= i <= s.len(),
    ensures
        total_first(s.subrange(0, i)) <= total_first(s),
        total_second(s.subrange(0, i)) <= total_second(s),
    decreases s.len(),
{
    if i == s.len() {
        assert(s.subrange(0, i) == s);
    } else {
        lemma_totals_of_prefix(s.drop_last(), i);
        assert(s.drop_last().subrange(0, i) == s.subrange(0, i));
    }
}

/// The two sums of a row of pairs, or `None` when one of them does not fit
/// in 64 bits.
pub fn checked_totals(v: &Vec<(u64, u64)>) -> (t: Option<(u64, u64)>)
    ensures
        t is Some <==> (total_first(v@) <= u64::MAX && total_second(v@) <= u64::MAX),
        t matches Some(p) ==> p.0 == total_first(v@) && p.1 == total_second(v@),
{
    let mut a: u64 = 0;
    let mut b: u64 = 0;
    let mut i: usize = 0;
    while i < v.len()
        invariant
            i <= v@.len(),
            a == total_first(v@.subrange(0, i as int)),
            b == total_second(v@.subrange(0, i as int)),
        decreases v@.len() - i,
    {
        let (x, y) = v[i];
        proof {
            assert(v@.subrange(0, i + 1).drop_last() == v@.subrange(0, i as int));
            lemma_totals_of_prefix(v@, i + 1);
        }
        match a.checked_add(x) {
            Some(na) => a = na,
            None => return None,
        }
        match b.checked_add(y) {
            Some(nb) => b = nb,
            None => return None,
        }
        i = i + 1;
    }
    assert(v@.subrange(0, v@.len() as int) == v@);
    Some((a, b))
}

/// The two sums of a row of pairs.
pub fn totals(v: &Vec<(u64, u64)>) -> (t: (u64, u64))
    requires
        total_first(v@) <= u64::MAX,
        total_second(v@) <= u64::MAX,
    ensures
        t.0 == total_first(v@),
        t.1 == total_second(v@),
{
    let mut a: u64 = 0;
    let mut b: u64 = 0;
    let mut i: usize = 0;
    while i < v.len()
        invariant
            i <= v@.len(),
            total_first(v@) <= u64::MAX,
            total_second(v@) <= u64::MAX,
            a == total_first(v@.subrange(0, i as int)),
            b == total_second(v@.subrange(0, i as int)),
        decreases v@.len() - i,
    {
        let (x, y) = v[i];
        proof {
            assert(v@.subrange(0, i + 1).drop_last() == v@.subrange(0, i as int));
            lemma_totals_of_prefix(v@, i + 1);
        }
        a = a + x;
        b = b + y;
        i = i + 1;
    }
    assert(v@.subrange(0, v@.len() as int) == v@);
    (a, b)
}

/// A row of `n` windows of `capacity` zero samples each.
fn zero_windows(n: usize, capacity: usize) -> (hs: Vec<History>)
    ensures
        windows_view(hs@) == Seq::new(n as nat, |i: int| zeros(capacity as nat)),
{
    let mut hs: Vec<History> = Vec::new();
    let mut i: usize = 0;
    while i < n
        invariant
            i <= n,
            hs@.len() == i,
            forall|j: int| 0 <= j < i ==> (#[trigger] hs@[j])@ == zeros(capacity as nat),
        decreases n - i,
    {
        hs.push(History::with_capacity(capacity));
        i = i + 1;
    }
    assert(windows_view(hs@) == Seq::new(n as nat, |i: int| zeros(capacity as nat)));
    hs
}

impl<C: Copy> Monitor<C> {
    /// The monitor when the applet starts with `settings` on a machine with
    /// `num_gpus` graphics cards.
    pub fn new(settings: Settings, num_gpus: usize, cpu_fill: C) -> (m: Self)
        ensures
            m@ == initial(settings@, num_gpus as nat, cpu_fill),
    {
        let w = startup_windows(&settings.components, &settings.sampling);
        assert(w.cpu == w.of(ComponentKind::Cpu));
        assert(w.mem == w.of(ComponentKind::Mem));
        assert(w.net == w.of(ComponentKind::Net));
        assert(w.disk == w.of(ComponentKind::Disk));
        assert(w.gpu == w.of(ComponentKind::Gpu));
        let m = Monitor {
            global_cpu: History::filled(w.cpu, cpu_fill),
            ram: History::with_capacity(w.mem),
            swap: History::with_capacity(w.mem),
            upload: History::with_capacity(w.net),
            download: History::with_capacity(w.net),
            disk_read: History::with_capacity(w.disk),
            disk_write: History::with_capacity(w.disk),
            gpu_usage: zero_windows(num_gpus, w.gpu),
            vram: zero_windows(num_gpus, w.gpu),
            settings,
            cpu_fill,
        };
        assert(m@.ram == zeros(start_window(settings@, ComponentKind::Mem)));
        m
    }

    /// Whether the monitor can take `event` (see `admits`).
    pub fn admits_event(&self, event: &Event<C>) -> (b: bool)
        ensures
            b == admits(self@, event@),
    {
        match event {
            Event::NetSample(v) => checked_totals(v).is_some(),
            Event::DiskSample(v) => checked_totals(v).is_some(),
            Event::GpuSample(v) => v.len() <= self.gpu_usage.len() && v.len() <= self.vram.len(),
            _ => true,
        }
    }

    /// Takes an event: the monitor becomes `step` of what it was, and the
    /// caller is told what is left for it to do.
    pub fn update(&mut self, event: Event<C>) -> (a: Action)
        requires
            admits(old(self)@, event@),
        ensures
            final(self)@ == step(old(self)@, event@),
            a == action_of(event@),
    {
        match event {
            Event::ToggleVisibility(kind) => {
                self.settings.visibility.toggle(kind);
                Action::SaveVisibility
            },
            Event::Settings(settings) => {
                self.settings = settings;
                let sampling = self.settings.sampling;
                self.global_cpu.resize_with(sampling.cpu.sampling_window, self.cpu_fill);
                self.ram.resize(sampling.mem.sampling_window);
                self.swap.resize(sampling.mem.sampling_window);
                self.upload.resize(sampling.net.sampling_window);
                self.download.resize(sampling.net.sampling_window);
                self.disk_read.resize(sampling.disk.sampling_window);
                self.disk_write.resize(sampling.disk.sampling_window);
                resize_all(&mut self.gpu_usage, sampling.cpu.sampling_window);
                resize_all(&mut self.vram, sampling.cpu.sampling_window);
                Action::Nothing
            },
            Event::CpuSample(c) => {
                self.global_cpu.push(c);
                Action::Nothing
            },
            Event::MemSample { ram, swap } => {
                self.ram.push(ram);
                self.swap.push(swap);
                Action::Nothing
            },
            Event::NetSample(v) => {
                let (received, transmitted) = totals(&v);
                self.upload.push(transmitted);
                self.download.push(received);
                Action::Nothing
            },
            Event::DiskSample(v) => {
                let (read, written) = totals(&v);
                self.disk_read.push(read);
                self.disk_write.push(written);
                Action::Nothing
            },
            Event::GpuSample(v) => {
                push_all(&mut self.gpu_usage, &v, true);
                push_all(&mut self.vram, &v, false);
                Action::Nothing
            },
        }
    }
}

impl<C: Copy> Monitor<C> {
    /// Takes an event when the monitor can take it, as `update` does, and
    /// answers what is left for the caller to do; an event it cannot take
    /// leaves the monitor as it was and is answered with `None`. Either way
    /// the number of graphics card windows stays as it was.
    pub fn apply(&mut self, event: Event<C>) -> (a: Option<Action>)
        ensures
            admits(old(self)@, event@) ==> a == Some(action_of(event@)) && final(self)@ == step(
                old(self)@,
                event@,
            ),
            !admits(old(self)@, event@) ==> a is None && final(self)@ == old(self)@,
            final(self).gpu_usage@.len() == old(self).gpu_usage@.len(),
            final(self).vram@.len() == old(self).vram@.len(),
    {
        if self.admits_event(&event) {
            let a = self.update(event);
            proof {
                lemma_step_keeps_card_count(old(self)@, event@);
            }
            Some(a)
        } else {
            None
        }
    }
}

/// Brings every window of `hs` to `len` samples, padded with zeros.
fn resize_all(hs: &mut Vec<History>, len: usize)
    ensures
        windows_view(final(hs)@) == resize_each(windows_view(old(hs)@), len as nat),
{
    let ghost start = windows_view(hs@);
    let mut i: usize = 0;
    while i < hs.len()
        invariant
            i <= hs@.len(),
            hs@.len() == start.len(),
            forall|j: int| 0 <= j < i ==> (#[trigger] hs@[j])@ == resized(start[j], len as nat, 0u64),
            forall|j: int| i <= j < hs@.len() ==> (#[trigger] hs@[j])@ == start[j],
        decreases hs@.len() - i,
    {
        hs[i].resize(len);
        i = i + 1;
    }
    assert(windows_view(hs@) == resize_each(start, len as nat));
}

/// Pushes into each window of `hs` the matching value of `v`: the first
/// members of the pairs when `first`, else the second ones.
fn push_all(hs: &mut Vec<History>, v: &Vec<(u64, u64)>, first: bool)
    requires
        v@.len() <= old(hs)@.len(),
    ensures
        windows_view(final(hs)@) == push_each(windows_view(old(hs)@), v@, first),
{
    let ghost start = windows_view(hs@);
    let mut i: usize = 0;
    while i < v.len()
        invariant
            i <= v@.len(),
            v@.len() <= hs@.len(),
            hs@.len() == start.len(),
            forall|j: int| 0 <= j < i ==> (#[trigger] hs@[j])@ == pushed(start[j], if first { v@[j].0 } else { v@[j].1 }),
            forall|j: int| i <= j < hs@.len() ==> (#[trigger] hs@[j])@ == start[j],
        decreases v@.len() - i,
    {
        let (a, b) = v[i];
        hs[i].push(if first { a } else { b });
        i = i + 1;
    }
    assert(windows_view(hs@) == push_each(start, v@, first));
}

} // verus!

verus! {

/// Every event leaves the number of graphics card windows as it was.
pub proof fn lemma_step_keeps_card_count<C>(m: MonitorView<C>, e: EventView<C>)
    ensures
        step(m, e).gpu_usage.len() == m.gpu_usage.len(),
        step(m, e).vram.len() == m.vram.len(),
{
}

/// Every event but new settings leaves the length of every non-empty window
/// as it was.
pub proof fn lemma_events_keep_window_lengths<C>(m: MonitorView<C>, e: EventView<C>)
    requires
        !(e is Settings),
        m.global_cpu.len() > 0,
        m.ram.len() > 0,
        m.swap.len() > 0,
        m.upload.len() > 0,
        m.download.len() > 0,
        m.disk_read.len() > 0,
        m.disk_write.len() > 0,
        forall|i: int| 0 <= i < m.gpu_usage.len() ==> (#[trigger] m.gpu_usage[i]).len() > 0,
        forall|i: int| 0 <= i < m.vram.len() ==> (#[trigger] m.vram[i]).len() > 0,
    ensures
        step(m, e).global_cpu.len() == m.global_cpu.len(),
        step(m, e).ram.len() == m.ram.len(),
        step(m, e).swap.len() == m.swap.len(),
        step(m, e).upload.len() == m.upload.len(),
        step(m, e).download.len() == m.download.len(),
        step(m, e).disk_read.len() == m.disk_read.len(),
        step(m, e).disk_write.len() == m.disk_write.len(),
        forall|i: int|
            0 <= i < m.gpu_usage.len() ==> (#[trigger] step(m, e).gpu_usage[i]).len() == m.gpu_usage[i].len(),
        forall|i: int| 0 <= i < m.vram.len() ==> (#[trigger] step(m, e).vram[i]).len() == m.vram[i].len(),
{
}

/// New settings give every window the length of the sampling window of its
/// kind, except the graphics card windows, which take the processor's window.
pub proof fn lemma_settings_set_window_lengths<C>(m: MonitorView<C>, s: SettingsView)
    ensures
        step(m, EventView::Settings(s)).settings == s,
        step(m, EventView::Settings(s)).global_cpu.len() == s.sampling.cpu.sampling_window,
        step(m, EventView::Settings(s)).ram.len() == s.sampling.mem.sampling_window,
        step(m, EventView::Settings(s)).swap.len() == s.sampling.mem.sampling_window,
        step(m, EventView::Settings(s)).upload.len() == s.sampling.net.sampling_window,
        step(m, EventView::Settings(s)).download.len() == s.sampling.net.sampling_window,
        step(m, EventView::Settings(s)).disk_read.len() == s.sampling.disk.sampling_window,
        step(m, EventView::Settings(s)).disk_write.len() == s.sampling.disk.sampling_window,
        forall|i: int|
            0 <= i < m.gpu_usage.len() ==> (#[trigger] step(m, EventView::Settings(s)).gpu_usage[i]).len()
                == s.sampling.cpu.sampling_window,
        forall|i: int|
            0 <= i < m.vram.len() ==> (#[trigger] step(m, EventView::Settings(s)).vram[i]).len()
                == s.sampling.cpu.sampling_window,
{
}

/// Showing or hiding a panel touches no window, and doing it twice brings
/// the monitor back to where it was.
pub proof fn lemma_toggle_twice_restores<C>(m: MonitorView<C>, kind: ComponentKind)
    ensures
        step(step(m, EventView::ToggleVisibility(kind)), EventView::ToggleVisibility(kind)) == m,
        step(m, EventView::ToggleVisibility(kind)).ram == m.ram,
        step(m, EventView::ToggleVisibility(kind)).settings.visibility == m.settings.visibility.toggled(kind),
{
    crate::monitor::lemma_toggle(m.settings.visibility, kind);
}

/// A reading is the newest sample of its windows afterwards: a network
/// reading's received total in the download window and its transmitted
/// total in the upload window, a disk reading's read total and written total
/// in the read and write windows.
pub proof fn lemma_reading_is_newest<C>(m: MonitorView<C>, v: Seq<(u64, u64)>)
    ensures
        step(m, EventView::NetSample(v)).download.last() == total_first(v) as u64,
        step(m, EventView::NetSample(v)).upload.last() == total_second(v) as u64,
        step(m, EventView::DiskSample(v)).disk_read.last() == total_first(v) as u64,
        step(m, EventView::DiskSample(v)).disk_write.last() == total_second(v) as u64,
{
}

} // verus!

verus! {

/// `new` is the window `old` after `value` came in: a non-empty window keeps
/// its length, every sample moves one place towards the oldest end, and
/// `value` is the newest sample; an empty window holds just `value`.
pub open spec fn slides_to<T>(old: Seq<T>, value: T, new: Seq<T>) -> bool {
    if old.len() == 0 {
        new.len() == 1 && new[0] == value
    } else {
        &&& new.len() == old.len()
        &&& new[new.len() - 1] == value
        &&& forall|i: int| 0 <= i < old.len() - 1 ==> #[trigger] new[i] == old[i + 1]
    }
}

/// A processor reading slides the processor window and touches nothing else.
pub proof fn lemma_cpu_reading_slides<C>(m: MonitorView<C>, c: C)
    ensures
        slides_to(m.global_cpu, c, step(m, EventView::CpuSample(c)).global_cpu),
        step(m, EventView::CpuSample(c)).settings == m.settings,
        step(m, EventView::CpuSample(c)).cpu_fill == m.cpu_fill,
        step(m, EventView::CpuSample(c)).ram == m.ram,
        step(m, EventView::CpuSample(c)).swap == m.swap,
        step(m, EventView::CpuSample(c)).upload == m.upload,
        step(m, EventView::CpuSample(c)).download == m.download,
        step(m, EventView::CpuSample(c)).disk_read == m.disk_read,
        step(m, EventView::CpuSample(c)).disk_write == m.disk_write,
        step(m, EventView::CpuSample(c)).gpu_usage == m.gpu_usage,
        step(m, EventView::CpuSample(c)).vram == m.vram,
{
}

/// A memory reading slides the memory window by the memory in use and the
/// swap window by the swap in use, and touches nothing else.
pub proof fn lemma_mem_reading_slides<C>(m: MonitorView<C>, ram: u64, swap: u64)
    ensures
        slides_to(m.ram, ram, step(m, EventView::MemSample { ram, swap }).ram),
        slides_to(m.swap, swap, step(m, EventView::MemSample { ram, swap }).swap),
        step(m, EventView::MemSample { ram, swap }).settings == m.settings,
        step(m, EventView::MemSample { ram, swap }).global_cpu == m.global_cpu,
        step(m, EventView::MemSample { ram, swap }).upload == m.upload,
        step(m, EventView::MemSample { ram, swap }).download == m.download,
        step(m, EventView::MemSample { ram, swap }).disk_read == m.disk_read,
        step(m, EventView::MemSample { ram, swap }).disk_write == m.disk_write,
        step(m, EventView::MemSample { ram, swap }).gpu_usage == m.gpu_usage,
        step(m, EventView::MemSample { ram, swap }).vram == m.vram,
{
}

/// A network reading slides the download window by the bytes received on
/// all interfaces together and the upload window by the bytes transmitted,
/// and touches nothing else.
pub proof fn lemma_net_reading_slides<C>(m: MonitorView<C>, v: Seq<(u64, u64)>)
    ensures
        slides_to(m.download, total_first(v) as u64, step(m, EventView::NetSample(v)).download),
        slides_to(m.upload, total_second(v) as u64, step(m, EventView::NetSample(v)).upload),
        step(m, EventView::NetSample(v)).settings == m.settings,
        step(m, EventView::NetSample(v)).global_cpu == m.global_cpu,
        step(m, EventView::NetSample(v)).ram == m.ram,
        step(m, EventView::NetSample(v)).swap == m.swap,
        step(m, EventView::NetSample(v)).disk_read == m.disk_read,
        step(m, EventView::NetSample(v)).disk_write == m.disk_write,
        step(m, EventView::NetSample(v)).gpu_usage == m.gpu_usage,
        step(m, EventView::NetSample(v)).vram == m.vram,
{
}

/// A disk reading slides the read window by the bytes read on all disks
/// together and the write window by the bytes written, and touches nothing
/// else.
pub proof fn lemma_disk_reading_slides<C>(m: MonitorView<C>, v: Seq<(u64, u64)>)
    ensures
        slides_to(m.disk_read, total_first(v) as u64, step(m, EventView::DiskSample(v)).disk_read),
        slides_to(m.disk_write, total_second(v) as u64, step(m, EventView::DiskSample(v)).disk_write),
        step(m, EventView::DiskSample(v)).settings == m.settings,
        step(m, EventView::DiskSample(v)).global_cpu == m.global_cpu,
        step(m, EventView::DiskSample(v)).ram == m.ram,
        step(m, EventView::DiskSample(v)).swap == m.swap,
        step(m, EventView::DiskSample(v)).upload == m.upload,
        step(m, EventView::DiskSample(v)).download == m.download,
        step(m, EventView::DiskSample(v)).gpu_usage == m.gpu_usage,
        step(m, EventView::DiskSample(v)).vram == m.vram,
{
}

/// A graphics reading slides the load window and the memory window of each
/// card it holds by that card's load and memory in use; the windows of the
/// other cards, and all else, stay as they were.
pub proof fn lemma_gpu_reading_slides<C>(m: MonitorView<C>, v: Seq<(u64, u64)>)
    ensures
        step(m, EventView::GpuSample(v)).gpu_usage.len() == m.gpu_usage.len(),
        step(m, EventView::GpuSample(v)).vram.len() == m.vram.len(),
        forall|i: int|
            0 <= i < m.gpu_usage.len() && i < v.len() ==> slides_to(
                m.gpu_usage[i],
                v[i].0,
                #[trigger] step(m, EventView::GpuSample(v)).gpu_usage[i],
            ),
        forall|i: int|
            0 <= i < m.vram.len() && i < v.len() ==> slides_to(
                m.vram[i],
                v[i].1,
                #[trigger] step(m, EventView::GpuSample(v)).vram[i],
            ),
        forall|i: int|
            v.len() <= i < m.gpu_usage.len() ==> #[trigger] step(m, EventView::GpuSample(v)).gpu_usage[i]
                == m.gpu_usage[i],
        forall|i: int|
            v.len() <= i < m.vram.len() ==> #[trigger] step(m, EventView::GpuSample(v)).vram[i] == m.vram[i],
        step(m, EventView::GpuSample(v)).settings == m.settings,
        step(m, EventView::GpuSample(v)).global_cpu == m.global_cpu,
        step(m, EventView::GpuSample(v)).ram == m.ram,
        step(m, EventView::GpuSample(v)).download == m.download,
        step(m, EventView::GpuSample(v)).disk_read == m.disk_read,
{
}

/// The totals of a reading add up over its parts: no pair sums to nothing,
/// one pair sums to its own members, and two rows together sum to the sums
/// of the two rows.
pub proof fn lemma_totals_add_up(a: Seq<(u64, u64)>, b: Seq<(u64, u64)>, p: (u64, u64))
    ensures
        total_first(Seq::empty()) == 0,
        total_second(Seq::empty()) == 0,
        total_first(seq![p]) == p.0,
        total_second(seq![p]) == p.1,
        total_first(a + b) == total_first(a) + total_first(b),
        total_second(a + b) == total_second(a) + total_second(b),
    decreases b.len(),
{
    assert(seq![p].drop_last() == Seq::<(u64, u64)>::empty());
    if b.len() > 0 {
        lemma_totals_add_up(a, b.drop_last(), p);
        assert((a + b).drop_last() == a + b.drop_last());
    } else {
        assert(a + b == a);
    }
}

} // verus!
