use statusbar::battery::{battery_output, BatteryModule, BatteryReading};
use statusbar::modules::Module;
use statusbar::network::{Link, NetworkModule};
use statusbar::producers::{
    bucket_glyph, cpu_output, DateTimeModule, DiskSpaceModule, SpacerModule, TemperatureModule,
};

fn reading(full: u64, now: u64, current: u64, status: &str) -> BatteryReading {
    BatteryReading {
        charge_full: Some(full),
        charge_now: Some(now),
        current_now: Some(current),
        status: Some(status.to_string()),
    }
}

fn block(r: statusbar::modules::ModuleRes) -> String {
    match r {
        Ok(o) => o.to_block(),
        Err(_) => panic!("expected a block"),
    }
}

#[test]
fn battery_half_discharging_two_hours() {
    let r = battery_output(&vec![reading(100, 50, 25, "Discharging\n")]);
    assert_eq!(
        block(r),
        "{\"full_text\": \"\u{f242} 50% [2h 0m]\", \"color\": \"#ff5555\"}"
    );
}

#[test]
fn battery_charging_minutes_only() {
    // 30 to go at 60 per hour: half an hour
    let r = battery_output(&vec![reading(100, 70, 60, "  Charging ")]);
    assert_eq!(
        block(r),
        "{\"full_text\": \"\u{f242} 70% [30m]\", \"color\": \"#50fa7b\"}"
    );
}

#[test]
fn battery_hours_and_minutes() {
    // 90 at 60 per hour: 1h 30m
    let r = battery_output(&vec![reading(100, 90, 60, "Discharging")]);
    assert_eq!(block(r), "{\"full_text\": \"\u{f241} 90% [1h 30m]\", \"color\": \"#ff5555\"}");
}

#[test]
fn battery_full_no_estimate() {
    let r = battery_output(&vec![reading(100, 100, 0, "Full")]);
    assert_eq!(block(r), "{\"full_text\": \"\u{f240} 100%\"}");
}

#[test]
fn battery_zero_current_no_estimate() {
    let r = battery_output(&vec![reading(100, 40, 0, "Discharging")]);
    assert_eq!(block(r), "{\"full_text\": \"\u{f243} 40%\", \"color\": \"#ff5555\"}");
}

#[test]
fn battery_sums_devices() {
    let r = battery_output(&vec![
        reading(60, 10, 5, "Unknown"),
        reading(40, 40, 5, "Discharging"),
    ]);
    // 50 of 100, 50 at 10 per hour
    assert_eq!(block(r), "{\"full_text\": \"\u{f242} 50% [5h 0m]\", \"color\": \"#ff5555\"}");
}

#[test]
fn battery_missing_value_is_silent() {
    let mut r = reading(100, 50, 25, "Discharging");
    r.charge_now = None;
    assert!(matches!(battery_output(&vec![r]), Err(None)));
    assert!(matches!(battery_output(&vec![]), Err(None)));
}

#[test]
fn battery_zero_capacity_is_silent() {
    assert!(matches!(battery_output(&vec![reading(0, 0, 1, "Charging")]), Err(None)));
}

#[test]
fn battery_overflowing_sum_is_silent() {
    let r = battery_output(&vec![reading(u64::MAX, 1, 1, "x"), reading(1, 1, 1, "x")]);
    assert!(matches!(r, Err(None)));
}

#[test]
fn battery_module_paths_and_rate() {
    let b = BatteryModule::new(["/a", "/b"]);
    assert_eq!(b.paths(), &vec!["/a".to_string(), "/b".to_string()]);
    assert_eq!(b.rate(), 5);
}

fn addrs() -> Option<Vec<Vec<[u8; 4]>>> {
    Some(vec![vec![], vec![[192, 168, 1, 20], [10, 0, 0, 1]]])
}

#[test]
fn network_wireless_up() {
    let n = NetworkModule::new("wlan0").with_name("W");
    let r = n.output(Link::Wireless {
        ssid: Some("home".to_string()),
        strength: Some(57),
        frequency: Some(5180),
        addresses: addrs(),
    });
    assert_eq!(
        block(r),
        "{\"full_text\": \"W: ( 57% at home, 5 Mb/s) 192.168.1.20\", \"color\": \"#50fa7b\"}"
    );
}

#[test]
fn network_wireless_without_access_point_is_down() {
    let n = NetworkModule::new("wlan0");
    let r = n.output(Link::Wireless { ssid: None, strength: None, frequency: None, addresses: None });
    assert_eq!(block(r), "{\"full_text\": \"wlan0: down\", \"color\": \"#ff5555\"}");
}

#[test]
fn network_wired_up_and_down() {
    let n = NetworkModule::new("eth0").with_name("E");
    let up = n.output(Link::Wired { carrier: Some(true), speed: Some(1000), addresses: Some(vec![]) });
    assert_eq!(block(up), "{\"full_text\": \"E: (1000 Mb/s)\", \"color\": \"#50fa7b\"}");
    let down = n.output(Link::Wired { carrier: Some(false), speed: Some(1000), addresses: addrs() });
    assert_eq!(block(down), "{\"full_text\": \"E: down\", \"color\": \"#ff5555\"}");
}

#[test]
fn network_failures() {
    let n = NetworkModule::new("eth0");
    assert!(matches!(n.output(Link::Missing), Err(None)));
    match n.output(Link::Other) {
        Err(Some(m)) => assert_eq!(m, "Unsupported device"),
        _ => panic!("expected a message"),
    }
    match n.output(Link::Unreachable) {
        Err(Some(m)) => assert_eq!(m, "dbus unavailable"),
        _ => panic!("expected a message"),
    }
    assert_eq!(n.interface(), "eth0");
    assert_eq!(n.rate(), 5);
}

#[test]
fn disk_space_found_and_missing() {
    let d = DiskSpaceModule::new("/dev/sda1");
    let disks = vec![
        ("/dev/sdb1".to_string(), 1u64 << 40),
        ("/dev/sda1".to_string(), 5 * (1u64 << 30) + 12345),
    ];
    assert_eq!(block(d.output(&disks)), "{\"full_text\": \"5 GiB\"}");
    match d.output(&vec![]) {
        Err(Some(m)) => assert_eq!(m, "Disk unavailable"),
        _ => panic!("expected a message"),
    }
}

#[test]
fn temperature_found_and_missing() {
    let t = TemperatureModule::new();
    let sensors = vec![("GPU".to_string(), "70".to_string()), ("CPU".to_string(), "48.5".to_string())];
    assert_eq!(block(t.output(&sensors)), "{\"full_text\": \"48.5\u{b0}C\"}");
    match t.output(&vec![]) {
        Err(Some(m)) => assert_eq!(m, "CPU unavailable"),
        _ => panic!("expected a message"),
    }
}

#[test]
fn spacer_pads_with_spaces() {
    let mut s = SpacerModule::<3>::new();
    assert_eq!(block(s.get_output()), "{\"full_text\": \"   \"}");
    let mut e = SpacerModule::<0>::new();
    assert_eq!(block(e.get_output()), "{\"full_text\": \"\"}");
}

#[test]
fn clock_renders_time() {
    let mut d = DateTimeModule;
    let text = block(d.get_output());
    // {"full_text": "dd/mm/yy hh:mm"}
    assert_eq!(text.len(), "{\"full_text\": \"\"}".len() + 14);
    assert_eq!(&text[17..18], "/");
}

#[test]
fn cpu_sparkline_glyphs() {
    assert_eq!(bucket_glyph(0), Some('\u{2581}'));
    assert_eq!(bucket_glyph(7), Some('\u{2588}'));
    assert_eq!(bucket_glyph(u32::MAX), None);
    let o = cpu_output(&vec!['\u{2581}', '\u{2588}'], true);
    assert_eq!(
        o.to_block(),
        "{\"full_text\": \"\u{2581}\u{2588}\", \"color\": \"#ff5555\", \"background\": \"#44475a\", \"border\": \"#000000\"}"
    );
    let calm = cpu_output(&vec![], false);
    assert_eq!(
        calm.to_block(),
        "{\"full_text\": \"\", \"background\": \"#44475a\", \"border\": \"#000000\"}"
    );
}
