use sd_rust::config::WidgetKind;
use sd_rust::render::{inset, Rgb};
use sd_rust::widgets::{
    area_graph, busy_height, default_route_iface, detect_amd_gpu, link_speed_mbit, read_meminfo,
    read_net_bytes, read_proc_stat, read_u64, Card, CpuDelta, CpuSampler, History, NetDelta,
    NetSampler, Sampler, Widget, COLS,
};

const BG: Rgb = Rgb { r: 18, g: 18, b: 22 };

fn rows() -> Vec<Rgb> {
    (0..72u8).map(|y| Rgb { r: y, g: 255 - y, b: 7 }).collect()
}

fn card(name: &str, vendor: &str, has_busy: bool, vram: Option<&str>) -> Card {
    Card {
        name: name.to_string(),
        vendor: Some(vendor.to_string()),
        has_busy,
        vram: vram.map(|v| v.to_string()),
    }
}

#[test]
fn proc_stat_parses_busy_fraction() {
    // Two reads with a known delta → 50% busy.
    let mut cpu = CpuSampler::new();
    // Seed previous values directly.
    cpu.prev_total = 100;
    cpu.prev_idle = 50;
    // The next read gives total=200, idle=100 → di=50, dt=100 → 50%.
    let delta = cpu.sample(Some((200, 100))).unwrap();
    assert_eq!(delta, CpuDelta { total: 100, idle: 50 });
    let busy = 1.0 - delta.idle as f32 / delta.total as f32;
    assert!((busy - 0.5).abs() < 1e-6);
}

#[test]
fn history_is_bounded_and_right_aligned() {
    let mut h = History::new(72);
    for i in 0..(COLS + 10) {
        let v = (i as f32) / 100.0;
        h.push((v.clamp(0.0, 1.0) * 72.0).round() as u32);
    }
    assert_eq!(h.samples.len(), COLS);
    // The newest sample is the last.
    assert_eq!(h.samples[71], (0.81f32 * 72.0).round() as u32);
    assert_eq!(h.samples[0], (0.10f32 * 72.0).round() as u32);
}

#[test]
fn samples_are_cut_to_the_top() {
    let mut h = History::new(36);
    h.push(99);
    h.push(36);
    h.push(0);
    assert_eq!(h.samples, vec![36, 36, 0]);
}

#[test]
fn cpu_samples_only_go_forward() {
    let mut cpu = CpuSampler::new();
    assert_eq!(cpu.sample(Some((10, 4))), Some(CpuDelta { total: 10, idle: 4 }));
    assert_eq!(cpu.sample(Some((9, 5))), None);
    assert_eq!(cpu.sample(Some((12, 3))), None);
    assert_eq!(cpu.sample(None), None);
    assert_eq!((cpu.prev_total, cpu.prev_idle), (10, 4));
    assert_eq!(cpu.sample(Some((10, 4))), Some(CpuDelta { total: 0, idle: 0 }));
}

#[test]
fn proc_stat_lines() {
    assert_eq!(read_proc_stat("cpu  1 2 3 4 5 6 7\ncpu0 9 9 9 9 9\n"), Some((28, 9)));
    assert_eq!(read_proc_stat("cpu 1 x 2 3 4 5"), Some((15, 9)));
    assert_eq!(read_proc_stat("cpu 1 2 3 4"), None);
    assert_eq!(read_proc_stat("cpu0 1 2 3 4 5"), None);
    assert_eq!(read_proc_stat(""), None);
    assert_eq!(read_proc_stat("\ncpu 1 2 3 4 5"), None);
    assert_eq!(read_proc_stat("cpu 18446744073709551615 1 0 0 0"), None);
}

#[test]
fn meminfo_lines() {
    let m = read_meminfo("MemTotal:       16000 kB\nMemFree: 1 kB\nMemAvailable:    4000 kB\n").unwrap();
    assert_eq!(m.total.as_deref(), Some("16000"));
    assert_eq!(m.available.as_deref(), Some("4000"));
    let m = read_meminfo("MemTotal: 1\nMemTotal: 2\n").unwrap();
    assert_eq!(m.total.as_deref(), Some("2"));
    assert_eq!(m.available, None);
    assert!(read_meminfo("MemTotal:\nMemAvailable: 3\n").is_none());
}

#[test]
fn net_lines() {
    let dev = "Inter-|   Receive\n face |bytes\n    lo: 1 2 3 4 5 6 7 8 9 10\n  eth0:100 1 2 3 4 5 6 7 200 9\n";
    assert_eq!(read_net_bytes(dev, "eth0"), Some((100, 200)));
    assert_eq!(read_net_bytes(dev, "lo"), Some((1, 9)));
    assert_eq!(read_net_bytes(dev, "eth"), None);
    assert_eq!(read_net_bytes("eth0: 1 2 3", "eth0"), None);
}

#[test]
fn routes() {
    let route = "Iface\tDestination\tGateway\nwlan0\t0000A8C0\t0\neth0\t00000000\t0101A8C0\n";
    assert_eq!(default_route_iface(route).as_deref(), Some("eth0"));
    assert_eq!(default_route_iface("Iface\tDestination\n"), None);
    assert_eq!(default_route_iface("head\nshort\neth0 00000000\n"), None);
    assert_eq!(default_route_iface(""), None);
}

#[test]
fn link_speeds() {
    assert_eq!(link_speed_mbit("1000\n"), Some(1000));
    assert_eq!(link_speed_mbit("-1\n"), None);
    assert_eq!(link_speed_mbit("0"), None);
    assert_eq!(link_speed_mbit("fast"), None);
}

#[test]
fn network_deltas() {
    let mut n = NetSampler::new(None);
    assert_eq!(n.interface(None), None);
    assert!(!n.check_ceiling());
    assert_eq!(n.interface(Some("eth0".to_string())).as_deref(), Some("eth0"));
    assert!(n.check_ceiling());
    assert!(!n.check_ceiling());
    assert_eq!(n.sample(None, 5), None);
    assert_eq!(n.sample(Some((10, 20)), 1_000), None);
    assert_eq!(n.sample(Some((15, 18)), 3_000), Some(NetDelta { rx: 5, tx: 0, elapsed_ns: 2_000 }));
    let mut fixed = NetSampler::new(Some("wlan0".to_string()));
    assert_eq!(fixed.interface(Some("eth0".to_string())).as_deref(), Some("wlan0"));
}

#[test]
fn area_graphs() {
    let mut h = History::new(72);
    h.push(10);
    h.push(30);
    h.push(0);
    h.push(0);
    let rows = rows();
    let t = area_graph(&h, &rows);
    for y in 0..72u32 {
        let lit = |x: u32, from: u32| {
            let expected = if y >= from { rows[y as usize] } else { BG };
            assert_eq!(t.pixel(x, y), expected, "{x},{y}");
        };
        lit(67, 72);
        lit(68, 62);
        lit(69, 42);
        // The third column is joined to the second.
        lit(70, 42);
        lit(71, 72);
    }
}

#[test]
fn network_graphs() {
    let mut n = NetSampler::new(Some("eth0".to_string()));
    let t = n.draw();
    assert!(t.pixels.iter().all(|p| *p == BG));
    n.interface(None);
    n.record(5, 3);
    n.record(0, 4);
    let t = n.draw();
    let down = Rgb { r: 105, g: 200, b: 240 };
    let up = Rgb { r: 205, g: 135, b: 230 };
    let divider = Rgb { r: 90, g: 90, b: 104 };
    for x in 0..72u32 {
        assert_eq!(t.pixel(x, 36), divider);
    }
    // Download grows up from the divider, the second column joined to the first.
    for x in [70, 71u32] {
        assert_eq!(t.pixel(x, 30), BG);
        assert_eq!(t.pixel(x, 31), down);
        assert_eq!(t.pixel(x, 35), down);
    }
    // Upload grows down; the joint takes one row more.
    assert_eq!(t.pixel(70, 38), up);
    assert_eq!(t.pixel(70, 39), BG);
    assert_eq!(t.pixel(71, 40), up);
    assert_eq!(t.pixel(71, 41), BG);
    assert_eq!(t.pixel(69, 35), BG);
}

#[test]
fn the_discrete_card_is_chosen() {
    let cards = vec![
        card("card0", "0x1002\n", true, Some("512\n")),
        card("card0-DP-1", "0x1002\n", true, Some("9999")),
        card("card1", "0x1002\n", true, Some("8192\n")),
        card("card2", "0x1002\n", false, Some("16384")),
        card("card3", "0x10de\n", true, Some("16384")),
        card("card4", "0x1002\n", true, Some("8192")),
        card("card5", "0x1002\n", true, None),
    ];
    assert_eq!(detect_amd_gpu(&cards), Some(2));
    assert_eq!(detect_amd_gpu(&vec![card("card5", "0x1002", true, None)]), Some(0));
    assert_eq!(detect_amd_gpu(&vec![card("card3", "0x10de", true, None)]), None);
    assert_eq!(read_u64(&Some(" 42\n".to_string())), Some(42));
    assert_eq!(read_u64(&Some("x".to_string())), None);
    assert_eq!(read_u64(&None), None);
}

#[test]
fn busy_percentages_round_to_the_nearest_pixel() {
    for v in 0..=150u64 {
        let fraction = (v as f32 / 100.0).clamp(0.0, 1.0);
        assert_eq!(busy_height(v), (fraction * 72.0).round() as u32, "{v}");
    }
    assert_eq!(busy_height(u64::MAX), 72);
    assert_eq!(busy_height(50), 36);
}

#[test]
fn widgets_render_when_due() {
    let rows = rows();
    let mut sampler = Sampler::new(WidgetKind::Ram, None);
    match &mut sampler {
        Sampler::Ram(h) => h.push(40),
        other => panic!("{other:?}"),
    }
    let mut w = Widget::new(sampler, Some(2), 1_000, &rows);
    assert_eq!(w.generation(), 1);
    assert_eq!(w.last_render, 1_000);
    let blue = Rgb { r: 120, g: 165, b: 235 };
    let graph = area_graph(
        match &w.sampler {
            Sampler::Ram(h) => h,
            other => panic!("{other:?}"),
        },
        &vec![blue; 72],
    );
    assert_eq!(w.tile().pixels, inset(&graph, 6).pixels);
    assert!(!w.due(2_999));
    assert!(!w.maybe_tick(2_999, &rows));
    assert_eq!(w.generation(), 1);
    assert!(w.maybe_tick(3_000, &rows));
    assert_eq!(w.generation(), 2);
    let plain = Widget::new(Sampler::new(WidgetKind::Cpu, None), None, 0, &rows);
    assert_eq!(plain.interval, 1);
    w.generation = u64::MAX;
    assert!(w.maybe_tick(10_000, &rows));
    assert_eq!(w.generation(), 0);
}

#[test]
fn every_kind_draws() {
    let rows = rows();
    for kind in [WidgetKind::Cpu, WidgetKind::Ram, WidgetKind::Network, WidgetKind::Gpu] {
        let s = Sampler::new(kind, Some("eth0".to_string()));
        assert!(s.draw(&rows).pixels.iter().all(|p| *p == BG));
    }
}
