use hearth_web::units;

#[test]
fn durations() {
    assert_eq!(units::format_micros_human(900_000_000), "15m");
    assert_eq!(units::format_micros_human(86_400_000_000), "24h");
    assert_eq!(units::format_micros_human(3_600_000_000), "1h");
    assert_eq!(units::format_micros_human(90_061_000_000), "1d 1h 1m 1s");
    assert_eq!(units::format_micros_human(172_800_000_000), "2d");
    assert_eq!(units::format_micros_human(28_800_000_000), "8h");
    assert_eq!(units::format_micros_human(999_999), "0s");
    assert_eq!(units::format_micros_human(0), "0s");
    assert_eq!(units::format_micros_human(-5_000_000), "0s");
}

#[test]
fn sizes() {
    assert_eq!(units::format_kib_human(131_072), "128 MiB (131072 KiB)");
    assert_eq!(units::format_kib_human(4_096), "4 MiB (4096 KiB)");
    assert_eq!(units::format_kib_human(512), "512 KiB");
    assert_eq!(units::format_kib_human(1_536), "1.5 MiB (1536 KiB)");
}

#[test]
fn sizes_round_as_floats_do() {
    let mut kib: u64 = 2;
    while kib < 4_000_000_000 {
        for k in [kib, kib + 1, kib + 51, kib + 77, kib + 256, kib + 768] {
            let k = u32::try_from(k).unwrap();
            let mib = f64::from(k) / 1024.0;
            let want = if k < 1024 {
                format!("{k} KiB")
            } else if k % 1024 == 0 {
                format!("{} MiB ({k} KiB)", k / 1024)
            } else {
                format!("{mib:.1} MiB ({k} KiB)")
            };
            assert_eq!(units::format_kib_human(k), want);
        }
        kib = kib / 2 * 3 + 1;
    }
}
