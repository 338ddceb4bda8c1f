use vstd::prelude::*;

verus! {

/// The kinds of measurement the applet can show, one panel each.
#[derive(Clone, Copy, Debug, PartialEq, Eq, Structural)]
pub enum ComponentKind {
    Cpu,
    Mem,
    Net,
    Disk,
    Gpu,
}

/// Which panels are shown in the applet.
#[derive(Clone, Copy, Debug, PartialEq, Eq, Structural)]
pub struct Visibility {
    pub cpu: bool,
    pub mem: bool,
    pub net: bool,
    pub disk: bool,
    pub gpu: bool,
}

impl Visibility {
    /// Whether the panel of `kind` is shown.
    pub open spec fn shows(self, kind: ComponentKind) -> bool {
        match kind {
            ComponentKind::Cpu => self.cpu,
            ComponentKind::Mem => self.mem,
            ComponentKind::Net => self.net,
            ComponentKind::Disk => self.disk,
            ComponentKind::Gpu => self.gpu,
        }
    }

    /// The same visibility with the panel of `kind` switched over.
    pub open spec fn toggled(self, kind: ComponentKind) -> Visibility {
        match kind {
            ComponentKind::Cpu => Visibility { cpu: !self.cpu, ..self },
            ComponentKind::Mem => Visibility { mem: !self.mem, ..self },
            ComponentKind::Net => Visibility { net: !self.net, ..self },
            ComponentKind::Disk => Visibility { disk: !self.disk, ..self },
            ComponentKind::Gpu => Visibility { gpu: !self.gpu, ..self },
        }
    }

    /// Whether at least one panel is shown.
    pub open spec fn shows_any(self) -> bool {
        self.cpu || self.mem || self.net || self.disk || self.gpu
    }

    /// Whether the panel of `kind` is shown.
    pub fn get(&self, kind: ComponentKind) -> (b: bool)
        ensures
            b == self.shows(kind),
    {
        match kind {
            ComponentKind::Cpu => self.cpu,
            ComponentKind::Mem => self.mem,
            ComponentKind::Net => self.net,
            ComponentKind::Disk => self.disk,
            ComponentKind::Gpu => self.gpu,
        }
    }

    /// Switches the panel of `kind` over: shown becomes hidden and hidden
    /// becomes shown. The other panels stay as they were.
    pub fn toggle(&mut self, kind: ComponentKind)
        ensures
            *final(self) == old(self).toggled(kind),
    {
        match kind {
            ComponentKind::Cpu => self.cpu = !self.cpu,
            ComponentKind::Mem => self.mem = !self.mem,
            ComponentKind::Net => self.net = !self.net,
            ComponentKind::Disk => self.disk = !self.disk,
            ComponentKind::Gpu => self.gpu = !self.gpu,
        }
    }

    /// Whether at least one panel is shown.
    pub fn any_visible(&self) -> (b: bool)
        ensures
            b == self.shows_any(),
    {
        self.cpu || self.mem || self.net || self.disk || self.gpu
    }
}

/// How one kind of measurement is sampled: how many samples its window
/// keeps, and how many milliseconds pass between two samples.
#[derive(Clone, Copy, Debug, PartialEq, Eq, Structural)]
pub struct SamplingSettings {
    pub sampling_window: usize,
    pub update_interval: u64,
}

/// The sampling of every kind of measurement.
#[derive(Clone, Copy, Debug, PartialEq, Eq, Structural)]
pub struct Sampling {
    pub cpu: SamplingSettings,
    pub mem: SamplingSettings,
    pub net: SamplingSettings,
    pub disk: SamplingSettings,
    pub gpu: SamplingSettings,
}

impl Sampling {
    /// The sampling of `kind`.
    pub open spec fn of(self, kind: ComponentKind) -> SamplingSettings {
        match kind {
            ComponentKind::Cpu => self.cpu,
            ComponentKind::Mem => self.mem,
            ComponentKind::Net => self.net,
            ComponentKind::Disk => self.disk,
            ComponentKind::Gpu => self.gpu,
        }
    }

    /// The sampling of `kind`.
    pub fn get(&self, kind: ComponentKind) -> (s: SamplingSettings)
        ensures
            s == self.of(kind),
    {
        match kind {
            ComponentKind::Cpu => self.cpu,
            ComponentKind::Mem => self.mem,
            ComponentKind::Net => self.net,
            ComponentKind::Disk => self.disk,
            ComponentKind::Gpu => self.gpu,
        }
    }
}

/// The window sizes of the measurements when the applet starts.
#[derive(Clone, Copy, Debug, PartialEq, Eq, Structural)]
pub struct Windows {
    pub cpu: usize,
    pub mem: usize,
    pub net: usize,
    pub disk: usize,
    pub gpu: usize,
}

impl Windows {
    /// The window size of `kind`.
    pub open spec fn of(self, kind: ComponentKind) -> usize {
        match kind {
            ComponentKind::Cpu => self.cpu,
            ComponentKind::Mem => self.mem,
            ComponentKind::Net => self.net,
            ComponentKind::Disk => self.disk,
            ComponentKind::Gpu => self.gpu,
        }
    }
}

/// The window sizes at start: a measurement whose panel is configured gets
/// the window of its sampling settings; the others get an empty window.
pub fn startup_windows(components: &Vec<ComponentKind>, sampling: &Sampling) -> (w: Windows)
    ensures
        forall|kind: ComponentKind|
            #[trigger] w.of(kind) == (if components@.contains(kind) {
                sampling.of(kind).sampling_window
            } else {
                0
            }),
{
    let mut w = Windows { cpu: 0, mem: 0, net: 0, disk: 0, gpu: 0 };
    let mut i: usize = 0;
    while i < components.len()
        invariant
            i <= components@.len(),
            forall|kind: ComponentKind|
                #[trigger] w.of(kind) == (if components@.subrange(0, i as int).contains(kind) {
                    sampling.of(kind).sampling_window
                } else {
                    0
                }),
        decreases components@.len() - i,
    {
        let kind = components[i];
        let ghost prev = w;
        match kind {
            ComponentKind::Cpu => w.cpu = sampling.cpu.sampling_window,
            ComponentKind::Mem => w.mem = sampling.mem.sampling_window,
            ComponentKind::Net => w.net = sampling.net.sampling_window,
            ComponentKind::Disk => w.disk = sampling.disk.sampling_window,
            ComponentKind::Gpu => w.gpu = sampling.gpu.sampling_window,
        }
        proof {
            let before = components@.subrange(0, i as int);
            let after = components@.subrange(0, i + 1);
            assert(after == before.push(kind));
            assert forall|k: ComponentKind| after.contains(k) <==> (before.contains(k) || k == kind) by {
                if after.contains(k) && k != kind {
                    let j = choose|j: int| 0 <= j < after.len() && after[j] == k;
                    assert(before[j] == k);
                }
                if before.contains(k) {
                    let j = choose|j: int| 0 <= j < before.len() && before[j] == k;
                    assert(after[j] == k);
                }
                if k == kind {
                    assert(after[i as int] == k);
                }
            }
            assert forall|k: ComponentKind| #[trigger] w.of(k) == (if after.contains(k) {
                sampling.of(k).sampling_window
            } else {
                0
            }) by {
                if k != kind {
                    assert(w.of(k) == prev.of(k));
                }
            }
        }
        i = i + 1;
    }
    assert(components@.subrange(0, components@.len() as int) == components@);
    w
}

/// A periodic sampling of one kind of measurement.
#[derive(Clone, Copy, Debug, PartialEq, Eq, Structural)]
pub struct Tick {
    pub kind: ComponentKind,
    pub interval_ms: u64,
}

/// One periodic sampling per configured panel, in the order of the panels,
/// each at the interval of its kind.
pub fn tick_schedule(components: &Vec<ComponentKind>, sampling: &Sampling) -> (ticks: Vec<Tick>)
    ensures
        ticks@.len() == components@.len(),
        forall|i: int|
            0 <= i < components@.len() ==> #[trigger] ticks@[i] == (Tick {
                kind: components@[i],
                interval_ms: sampling.of(components@[i]).update_interval,
            }),
{
    let mut ticks: Vec<Tick> = Vec::new();
    let mut i: usize = 0;
    while i < components.len()
        invariant
            i <= components@.len(),
            ticks@.len() == i,
            forall|j: int|
                0 <= j < i ==> #[trigger] ticks@[j] == (Tick {
                    kind: components@[j],
                    interval_ms: sampling.of(components@[j]).update_interval,
                }),
        decreases components@.len() - i,
    {
        let kind = components[i];
        let interval_ms = sampling.get(kind).update_interval;
        ticks.push(Tick { kind, interval_ms });
        i = i + 1;
    }
    ticks
}

/// The positions, in increasing order, of the panels among the first `n`
/// that are shown: their kind is visible and they have something to show.
pub open spec fn shown_panels(
    components: Seq<ComponentKind>,
    visibility: Visibility,
    has_elements: Seq<bool>,
    n: nat,
) -> Seq<usize>
    decreases n,
{
    if n == 0 {
        Seq::empty()
    } else {
        let i = (n - 1) as nat;
        let before = shown_panels(components, visibility, has_elements, i);
        if visibility.shows(components[i as int]) && has_elements[i as int] {
            before.push(i as usize)
        } else {
            before
        }
    }
}

/// What the applet's panel shows: `None` when every kind is hidden (the
/// applet then shows its icon), otherwise the positions of the panels to
/// draw, in order: those whose kind is visible and that have something to
/// show (`has_elements[i]` for the panel `components[i]`).
pub fn panel_plan(
    components: &Vec<ComponentKind>,
    visibility: &Visibility,
    has_elements: &Vec<bool>,
) -> (plan: Option<Vec<usize>>)
    requires
        has_elements@.len() == components@.len(),
    ensures
        plan is None <==> !visibility.shows_any(),
        plan matches Some(p) ==> p@ == shown_panels(
            components@,
            *visibility,
            has_elements@,
            components@.len(),
        ),
{
    if !visibility.any_visible() {
        return None;
    }
    let mut shown: Vec<usize> = Vec::new();
    let mut i: usize = 0;
    while i < components.len()
        invariant
            i <= components@.len(),
            has_elements@.len() == components@.len(),
            shown@ == shown_panels(components@, *visibility, has_elements@, i as nat),
        decreases components@.len() - i,
    {
        if visibility.get(components[i]) && has_elements[i] {
            shown.push(i);
        }
        i = i + 1;
    }
    Some(shown)
}

} // verus!

verus! {

/// Switching a panel over changes whether that panel is shown and nothing
/// else, and switching it over twice brings the visibility back.
pub proof fn lemma_toggle(v: Visibility, kind: ComponentKind)
    ensures
        v.toggled(kind).shows(kind) == !v.shows(kind),
        forall|other: ComponentKind| other != kind ==> #[trigger] v.toggled(kind).shows(other) == v.shows(other),
        v.toggled(kind).toggled(kind) == v,
{
}

/// The panels of a plan are distinct positions among the configured panels,
/// in increasing order, and each of them has a visible kind and something to
/// show; every such position is in the plan.
pub proof fn lemma_shown_panels(
    components: Seq<ComponentKind>,
    visibility: Visibility,
    has_elements: Seq<bool>,
    n: nat,
)
    requires
        n <= components.len(),
        n <= has_elements.len(),
        n <= usize::MAX,
    ensures
        forall|j: int|
            0 <= j < shown_panels(components, visibility, has_elements, n).len() ==> {
                let i = #[trigger] shown_panels(components, visibility, has_elements, n)[j] as int;
                &&& i < n
                &&& visibility.shows(components[i])
                &&& has_elements[i]
            },
        forall|j: int, k: int|
            0 <= j < k < shown_panels(components, visibility, has_elements, n).len()
                ==> #[trigger] shown_panels(components, visibility, has_elements, n)[j]
                < #[trigger] shown_panels(components, visibility, has_elements, n)[k],
        forall|i: int|
            0 <= i < n && visibility.shows(components[i]) && #[trigger] has_elements[i]
                ==> shown_panels(components, visibility, has_elements, n).contains(i as usize),
    decreases n,
{
    if n > 0 {
        let m = (n - 1) as nat;
        lemma_shown_panels(components, visibility, has_elements, m);
        let before = shown_panels(components, visibility, has_elements, m);
        let all = shown_panels(components, visibility, has_elements, n);
        assert forall|i: int|
            0 <= i < n && visibility.shows(components[i]) && #[trigger] has_elements[i]
                implies all.contains(i as usize) by {
            if i < m {
                let j = choose|j: int| 0 <= j < before.len() && before[j] == i as usize;
                assert(all[j] == i as usize);
            } else {
                assert(all[all.len() - 1] == i as usize);
            }
        }
    }
}

} // verus!

verus! {

/// Each kind of panel is read through its own flag, switching a kind over
/// flips its own flag and no other, and some panel is shown exactly when
/// some kind is shown.
pub proof fn lemma_visibility_by_kind(v: Visibility, kind: ComponentKind)
    ensures
        v.shows(ComponentKind::Cpu) == v.cpu,
        v.shows(ComponentKind::Mem) == v.mem,
        v.shows(ComponentKind::Net) == v.net,
        v.shows(ComponentKind::Disk) == v.disk,
        v.shows(ComponentKind::Gpu) == v.gpu,
        v.toggled(kind).cpu == (if kind == ComponentKind::Cpu { !v.cpu } else { v.cpu }),
        v.toggled(kind).mem == (if kind == ComponentKind::Mem { !v.mem } else { v.mem }),
        v.toggled(kind).net == (if kind == ComponentKind::Net { !v.net } else { v.net }),
        v.toggled(kind).disk == (if kind == ComponentKind::Disk { !v.disk } else { v.disk }),
        v.toggled(kind).gpu == (if kind == ComponentKind::Gpu { !v.gpu } else { v.gpu }),
        v.shows_any() <==> exists|k: ComponentKind| #[trigger] v.shows(k),
        v.shows_any() <==> (v.cpu || v.mem || v.net || v.disk || v.gpu),
{
    if v.shows_any() {
        if v.cpu {
            assert(v.shows(ComponentKind::Cpu));
        } else if v.mem {
            assert(v.shows(ComponentKind::Mem));
        } else if v.net {
            assert(v.shows(ComponentKind::Net));
        } else if v.disk {
            assert(v.shows(ComponentKind::Disk));
        } else {
            assert(v.shows(ComponentKind::Gpu));
        }
    }
}

/// The sampling of each kind is that kind's own settings, and so are its
/// window size at start and the interval of its periodic sampling.
pub proof fn lemma_sampling_by_kind(s: Sampling, w: Windows)
    ensures
        s.of(ComponentKind::Cpu) == s.cpu,
        s.of(ComponentKind::Mem) == s.mem,
        s.of(ComponentKind::Net) == s.net,
        s.of(ComponentKind::Disk) == s.disk,
        s.of(ComponentKind::Gpu) == s.gpu,
        w.of(ComponentKind::Cpu) == w.cpu,
        w.of(ComponentKind::Mem) == w.mem,
        w.of(ComponentKind::Net) == w.net,
        w.of(ComponentKind::Disk) == w.disk,
        w.of(ComponentKind::Gpu) == w.gpu,
{
}

/// What the panel shows: the icon exactly when no kind is shown, and
/// otherwise every configured panel whose kind is shown and that has
/// something to show, and no other.
pub proof fn lemma_panel_plan_shows_visible(
    components: Seq<ComponentKind>,
    visibility: Visibility,
    has_elements: Seq<bool>,
)
    requires
        has_elements.len() == components.len(),
        components.len() <= usize::MAX,
    ensures
        !visibility.shows_any() <==> (!visibility.cpu && !visibility.mem && !visibility.net
            && !visibility.disk && !visibility.gpu),
        forall|i: int|
            0 <= i < components.len() ==> (shown_panels(
                components,
                visibility,
                has_elements,
                components.len(),
            ).contains(i as usize) <==> (visibility.shows(components[i]) && #[trigger] has_elements[i])),
{
    lemma_shown_panels(components, visibility, has_elements, components.len());
    let p = shown_panels(components, visibility, has_elements, components.len());
    assert forall|i: int| 0 <= i < components.len() implies (p.contains(i as usize) <==> (
    visibility.shows(components[i]) && #[trigger] has_elements[i])) by {
        if p.contains(i as usize) {
            let j = choose|j: int| 0 <= j < p.len() && p[j] == i as usize;
            assert(p[j] as int == i);
        }
    }
}

} // verus!
