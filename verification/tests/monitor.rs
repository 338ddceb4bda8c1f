use sysmon::monitor::{
    panel_plan, startup_windows, tick_schedule, ComponentKind, Sampling, SamplingSettings, Tick,
    Visibility,
};
use sysmon::state::{checked_totals, totals, Action, Event, Monitor, Settings};

fn sampling() -> Sampling {
    Sampling {
        cpu: SamplingSettings { sampling_window: 4, update_interval: 1000 },
        mem: SamplingSettings { sampling_window: 3, update_interval: 2000 },
        net: SamplingSettings { sampling_window: 2, update_interval: 500 },
        disk: SamplingSettings { sampling_window: 5, update_interval: 3000 },
        gpu: SamplingSettings { sampling_window: 6, update_interval: 4000 },
    }
}

fn all_visible() -> Visibility {
    Visibility { cpu: true, mem: true, net: true, disk: true, gpu: true }
}

fn settings(components: Vec<ComponentKind>) -> Settings {
    Settings { components, visibility: all_visible(), sampling: sampling() }
}

#[test]
fn visibility_toggle_flips_one_panel() {
    let mut v = all_visible();
    v.toggle(ComponentKind::Net);
    assert!(!v.get(ComponentKind::Net));
    assert!(v.get(ComponentKind::Cpu));
    assert!(v.any_visible());
    v.toggle(ComponentKind::Net);
    assert_eq!(v, all_visible());
}

#[test]
fn nothing_visible() {
    let v = Visibility { cpu: false, mem: false, net: false, disk: false, gpu: false };
    assert!(!v.any_visible());
    assert_eq!(panel_plan(&vec![ComponentKind::Cpu], &v, &vec![true]), None);
}

#[test]
fn startup_windows_only_for_configured_panels() {
    let w = startup_windows(&vec![ComponentKind::Mem, ComponentKind::Gpu], &sampling());
    assert_eq!((w.cpu, w.mem, w.net, w.disk, w.gpu), (0, 3, 0, 0, 6));
}

#[test]
fn schedule_follows_panel_order() {
    let t = tick_schedule(&vec![ComponentKind::Disk, ComponentKind::Cpu], &sampling());
    assert_eq!(
        t,
        vec![
            Tick { kind: ComponentKind::Disk, interval_ms: 3000 },
            Tick { kind: ComponentKind::Cpu, interval_ms: 1000 },
        ]
    );
}

#[test]
fn plan_skips_hidden_and_empty_panels() {
    let v = Visibility { cpu: true, mem: false, net: true, disk: true, gpu: true };
    let kinds = vec![ComponentKind::Cpu, ComponentKind::Mem, ComponentKind::Net, ComponentKind::Gpu];
    let plan = panel_plan(&kinds, &v, &vec![true, true, false, true]);
    assert_eq!(plan, Some(vec![0, 3]));
}

#[test]
fn totals_sum_both_members() {
    assert_eq!(totals(&vec![(1, 10), (2, 20), (3, 30)]), (6, 60));
    assert_eq!(totals(&vec![]), (0, 0));
    assert_eq!(checked_totals(&vec![(u64::MAX, 0), (1, 0)]), None);
    assert_eq!(checked_totals(&vec![(0, u64::MAX), (0, 1)]), None);
    assert_eq!(checked_totals(&vec![(u64::MAX - 1, 2), (1, 3)]), Some((u64::MAX, 5)));
}

#[test]
fn new_monitor_sizes_windows() {
    let m: Monitor<u32> = Monitor::new(settings(vec![ComponentKind::Cpu, ComponentKind::Net]), 2, 0);
    assert_eq!(m.global_cpu.to_vec(), vec![0, 0, 0, 0]);
    assert_eq!(m.upload.len(), 2);
    assert_eq!(m.download.len(), 2);
    assert_eq!(m.ram.len(), 0);
    assert_eq!(m.disk_read.len(), 0);
    assert_eq!(m.gpu_usage.len(), 2);
    assert_eq!(m.vram.len(), 2);
    assert_eq!(m.gpu_usage[0].len(), 0);
}

#[test]
fn readings_are_pushed() {
    let all = vec![
        ComponentKind::Cpu,
        ComponentKind::Mem,
        ComponentKind::Net,
        ComponentKind::Disk,
        ComponentKind::Gpu,
    ];
    let mut m: Monitor<u32> = Monitor::new(settings(all), 2, 0);
    assert_eq!(m.update(Event::CpuSample(42)), Action::Nothing);
    assert_eq!(m.global_cpu.to_vec(), vec![0, 0, 0, 42]);
    m.update(Event::MemSample { ram: 7, swap: 1 });
    assert_eq!(m.ram.to_vec(), vec![0, 0, 7]);
    assert_eq!(m.swap.to_vec(), vec![0, 0, 1]);
    let net = Event::NetSample(vec![(100, 1), (200, 2)]);
    assert!(m.admits_event(&net));
    m.update(net);
    assert_eq!(m.download.to_vec(), vec![0, 300]);
    assert_eq!(m.upload.to_vec(), vec![0, 3]);
    m.update(Event::DiskSample(vec![(5, 6), (7, 8)]));
    assert_eq!(m.disk_read.to_vec(), vec![0, 0, 0, 0, 12]);
    assert_eq!(m.disk_write.to_vec(), vec![0, 0, 0, 0, 14]);
    m.update(Event::GpuSample(vec![(50, 1024)]));
    assert_eq!(m.gpu_usage[0].latest_or_zero(), 50);
    assert_eq!(m.vram[0].latest_or_zero(), 1024);
    assert_eq!(m.gpu_usage[1].latest_or_zero(), 0);
    assert_eq!(m.gpu_usage[0].len(), 6);
}

#[test]
fn events_that_cannot_be_taken() {
    let m: Monitor<u32> = Monitor::new(settings(vec![]), 1, 0);
    assert!(!m.admits_event(&Event::GpuSample(vec![(1, 1), (2, 2)])));
    assert!(m.admits_event(&Event::GpuSample(vec![(1, 1)])));
    assert!(!m.admits_event(&Event::NetSample(vec![(u64::MAX, 0), (1, 0)])));
    assert!(!m.admits_event(&Event::DiskSample(vec![(0, u64::MAX), (0, 1)])));
    assert!(m.admits_event(&Event::CpuSample(1)));
}

#[test]
fn toggle_asks_to_save_and_twice_restores() {
    let mut m: Monitor<u32> = Monitor::new(settings(vec![ComponentKind::Cpu]), 0, 0);
    assert_eq!(m.update(Event::ToggleVisibility(ComponentKind::Gpu)), Action::SaveVisibility);
    assert!(!m.settings.visibility.gpu);
    assert_eq!(m.update(Event::ToggleVisibility(ComponentKind::Gpu)), Action::SaveVisibility);
    assert_eq!(m.settings.visibility, all_visible());
}

#[test]
fn new_settings_resize_every_window() {
    let mut m: Monitor<u32> = Monitor::new(settings(vec![ComponentKind::Mem]), 1, 9);
    m.update(Event::MemSample { ram: 5, swap: 6 });
    let mut s = sampling();
    s.mem.sampling_window = 1;
    s.cpu.sampling_window = 2;
    s.gpu.sampling_window = 8;
    let a = m.update(Event::Settings(Settings {
        components: vec![ComponentKind::Mem],
        visibility: all_visible(),
        sampling: s,
    }));
    assert_eq!(a, Action::Nothing);
    assert_eq!(m.ram.to_vec(), vec![5]);
    assert_eq!(m.swap.to_vec(), vec![6]);
    assert_eq!(m.global_cpu.to_vec(), vec![9, 9]);
    assert_eq!(m.upload.len(), 2);
    assert_eq!(m.disk_read.len(), 5);
    assert_eq!(m.gpu_usage[0].len(), 2);
    assert_eq!(m.vram[0].len(), 2);
}

#[test]
fn apply_refuses_what_update_cannot_take() {
    let mut m: Monitor<u32> = Monitor::new(settings(vec![ComponentKind::Gpu]), 1, 0);
    assert_eq!(m.apply(Event::GpuSample(vec![(1, 1), (2, 2)])), None);
    assert_eq!(m.gpu_usage.len(), 1);
    assert_eq!(m.gpu_usage[0].latest_or_zero(), 0);
    assert_eq!(m.apply(Event::NetSample(vec![(u64::MAX, 0), (1, 0)])), None);
    assert_eq!(m.download.len(), 0);
    assert_eq!(m.apply(Event::GpuSample(vec![(3, 4)])), Some(Action::Nothing));
    assert_eq!(m.gpu_usage[0].latest_or_zero(), 3);
    assert_eq!(m.vram[0].latest_or_zero(), 4);
    assert_eq!(
        m.apply(Event::ToggleVisibility(ComponentKind::Cpu)),
        Some(Action::SaveVisibility)
    );
    assert_eq!(m.gpu_usage.len(), 1);
    assert_eq!(m.vram.len(), 1);
}
