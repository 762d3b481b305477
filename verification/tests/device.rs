use dban::device::{human_bytes, Bus, Disk, LockReason, MediaKind};
use dban::CoreError;

#[test]
fn human_bytes_formatting() {
    assert_eq!(human_bytes(0), "0 B");
    assert_eq!(human_bytes(999), "999 B");
    assert_eq!(human_bytes(1000), "1.00 KB");
    assert_eq!(human_bytes(500_107_862_016), "500 GB");
    assert_eq!(human_bytes(4_000_787_030_016), "4.00 TB");
    assert_eq!(human_bytes(64 * 1024 * 1024), "67.1 MB");
}

/// The same formatting on floating-point numbers.
fn float_bytes(n: u64) -> String {
    let units: [&str; 6] = ["B", "KB", "MB", "GB", "TB", "PB"];
    if n < 1000 {
        return format!("{n} B");
    }
    let mut value: f64 = n as f64;
    let mut unit: usize = 0;
    while value >= 1000.0 && unit < units.len() - 1 {
        value /= 1000.0;
        unit += 1;
    }
    if value >= 100.0 {
        format!("{value:.0} {}", units[unit])
    } else if value >= 10.0 {
        format!("{value:.1} {}", units[unit])
    } else {
        format!("{value:.2} {}", units[unit])
    }
}

#[test]
fn human_bytes_agrees_with_floating_point() {
    let mut samples: Vec<u64> = vec![
        0,
        1,
        9,
        10,
        999,
        1000,
        1004,
        1005,
        1006,
        1014,
        1015,
        1016,
        1025,
        1125,
        1375,
        9_994,
        9_995,
        9_996,
        9_999,
        10_000,
        10_049,
        10_050,
        10_051,
        10_250,
        99_949,
        99_950,
        99_999,
        100_500,
        101_500,
        999_499,
        999_500,
        999_999,
        1_000_000,
        1_000_000_000_000_000,
        999_999_999_999_999,
        999_500_000_000_000_000,
        9_007_199_254_740_991,
        9_007_199_254_740_993,
        18_014_398_509_481_985,
        u64::MAX - 1,
        u64::MAX,
    ];
    // A deterministic spread over all magnitudes.
    let mut x: u64 = 0x9E37_79B9_7F4A_7C15;
    for k in 0..20_000u32 {
        x = x.wrapping_mul(6364136223846793005).wrapping_add(1442695040888963407);
        samples.push(x >> (k % 64));
    }
    // Ties and their neighbours in every unit.
    for unit in [1_000u64, 1_000_000, 1_000_000_000, 1_000_000_000_000, 1_000_000_000_000_000] {
        for k in 0..400u64 {
            let tie = unit / 1000 * (1000 + k * 5);
            samples.push(tie.saturating_sub(1));
            samples.push(tie);
            samples.push(tie.saturating_add(1));
        }
    }
    for n in samples {
        assert_eq!(human_bytes(n), float_bytes(n), "{n}");
    }
}

fn disk(lock: Option<LockReason>) -> Disk {
    Disk {
        path: "/dev/sda".to_string(),
        name: "sda".to_string(),
        model: "Model".to_string(),
        serial: "S".to_string(),
        size_bytes: 500_107_862_016,
        bus: Bus::Sata,
        kind: MediaKind::Hdd,
        removable: false,
        lock,
        simulated: false,
        throttle_bps: None,
    }
}

#[test]
fn disk_accessors() {
    assert!(!disk(None).is_locked());
    assert!(disk(Some(LockReason::InUse)).is_locked());
    assert_eq!(disk(None).size_human(), "500 GB");
    let copy = disk(Some(LockReason::Mounted)).clone();
    assert_eq!(copy.name, "sda");
    assert_eq!(copy.lock, Some(LockReason::Mounted));
}

#[test]
fn labels() {
    assert_eq!(Bus::Sata.label(), "SATA");
    assert_eq!(Bus::Nvme.label(), "NVMe");
    assert_eq!(Bus::Usb.label(), "USB");
    assert_eq!(Bus::Virtio.label(), "VirtIO");
    assert_eq!(Bus::Mmc.label(), "MMC");
    assert_eq!(Bus::Demo.label(), "DEMO");
    assert_eq!(Bus::Unknown.label(), "?");
    assert_eq!(MediaKind::Hdd.label(), "HDD");
    assert_eq!(MediaKind::Ssd.label(), "SSD");
    assert_eq!(LockReason::Mounted.label(), "mounted");
    assert_eq!(LockReason::SwapActive.label(), "active swap");
    assert_eq!(LockReason::BootMedium.label(), "boot medium");
    assert_eq!(LockReason::InUse.label(), "in use");
}

#[test]
fn error_messages() {
    assert_eq!(CoreError::Io("gone".to_string()).message(), "I/O error: gone");
    assert_eq!(
        CoreError::DiskLocked("sda".to_string(), "mounted".to_string()).message(),
        "disk sda is locked (mounted) and can never be wiped in this session"
    );
    assert_eq!(CoreError::NothingSelected.message(), "no disks selected");
    assert_eq!(
        CoreError::PhraseMismatch.message(),
        "confirmation phrase does not match"
    );
    assert_eq!(
        CoreError::InvalidState.message(),
        "operation not valid in the current state"
    );
}
