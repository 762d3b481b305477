use dban::device::{Bus, LockReason, MediaKind};
use dban::linux::{
    belongs_to, detect_bus, detect_lock, device_path, disk_from_sysfs, is_boot_label, is_scour_boot_medium,
    mounted_device_paths, read_string, read_u64, should_skip, swap_device_paths, sys_path,
    SysfsAttributes, SysfsEntry, SysfsProvider,
};
use dban::scan::{first_word, lines, parse_u64, trim, trim_end_matches};
use dban::sysinfo::{collect, linux_cpu_model, linux_kernel, linux_mem_kib, linux_mem_total};

#[test]
fn partition_ownership() {
    assert!(belongs_to("/dev/sda", "/dev/sda"));
    assert!(belongs_to("/dev/sda1", "/dev/sda"));
    assert!(belongs_to("/dev/sda12", "/dev/sda"));
    assert!(belongs_to("/dev/nvme0n1p2", "/dev/nvme0n1"));
    assert!(belongs_to("/dev/mmcblk0p1", "/dev/mmcblk0"));
    // The classic prefix trap:
    assert!(!belongs_to("/dev/sdaa", "/dev/sda"));
    assert!(!belongs_to("/dev/sdaa1", "/dev/sda"));
    assert!(!belongs_to("/dev/sdb1", "/dev/sda"));
    assert!(!belongs_to("/dev/nvme0n10", "/dev/nvme0n1"));
}

#[test]
fn pseudo_devices_are_skipped() {
    for name in [
        "loop0", "ram0", "zram0", "dm-0", "md127", "sr0", "fd0", "nbd3",
    ] {
        assert!(should_skip(name), "{name} must be skipped");
    }
    for name in ["sda", "sdb", "nvme0n1", "vda", "mmcblk0"] {
        assert!(!should_skip(name), "{name} must not be skipped");
    }
}

#[test]
fn bus_detection_by_name() {
    assert_eq!(detect_bus("nvme0n1", &None), Bus::Nvme);
    assert_eq!(detect_bus("mmcblk0", &None), Bus::Mmc);
    assert_eq!(detect_bus("vda", &None), Bus::Virtio);
}

#[test]
fn bus_detection_by_topology() {
    let link = |s: &str| Some(s.to_string());
    assert_eq!(
        detect_bus("sda", &link("../devices/pci0000:00/0000:00:14.0/usb1/1-1/block/sda")),
        Bus::Usb
    );
    assert_eq!(
        detect_bus("sda", &link("../devices/pci0000:00/0000:00:1f.2/ata1/host0/block/sda")),
        Bus::Sata
    );
    assert_eq!(detect_bus("sda", &link("../devices/pci/virtio3/block/sda")), Bus::Virtio);
    assert_eq!(detect_bus("sda", &link("../devices/platform")), Bus::Unknown);
    assert_eq!(detect_bus("sda", &None), Bus::Unknown);
}

#[test]
fn partition_suffix_traps() {
    assert!(!belongs_to("/dev/nvme0n1p", "/dev/nvme0n1"));
    assert!(!belongs_to("/dev/nvme0n12", "/dev/nvme0n1"));
    assert!(!belongs_to("/dev/sda1x", "/dev/sda"));
    assert!(!belongs_to("/dev/sd", "/dev/sda"));
    assert!(!belongs_to("/dev/sdap1", "/dev/sda"));
}

#[test]
fn locks_come_in_order() {
    let mounts = "/dev/sda1 / ext4 rw 0 0\nproc /proc proc rw 0 0\n/dev/sda1 /mnt ext4 rw 0 0\r\n";
    let mounted = mounted_device_paths(mounts);
    assert_eq!(mounted, vec!["/dev/sda1".to_string()]);
    let swaps = swap_device_paths("Filename Type Size\n/dev/sdb2 partition 1000\n/swapfile file 1\n");
    assert_eq!(swaps, vec!["/dev/sdb2".to_string()]);
    assert!(swap_device_paths("/dev/sdb2 partition").is_empty());
    let lock = |dev: &str, held: bool, boot: bool| detect_lock(dev, &mounted, &swaps, held, boot);
    assert_eq!(lock("/dev/sda", true, true), Some(LockReason::Mounted));
    assert_eq!(lock("/dev/sdb", true, true), Some(LockReason::SwapActive));
    assert_eq!(lock("/dev/sdc", true, true), Some(LockReason::InUse));
    assert_eq!(lock("/dev/sdc", false, true), Some(LockReason::BootMedium));
    assert_eq!(lock("/dev/sdc", false, false), None);
}

#[test]
fn boot_medium_is_recognized() {
    let mut d = vec![0u8; 2048];
    d[0] = 1;
    d[1..6].copy_from_slice(b"CD001");
    d[40..72].copy_from_slice(b"SCOUR_LIVE                      ");
    assert!(is_scour_boot_medium(&d));
    d[40..72].copy_from_slice(b"   SCOUR                        ");
    assert!(is_scour_boot_medium(&d));
    d[40..72].copy_from_slice(b"UBUNTU                          ");
    assert!(!is_scour_boot_medium(&d));
    // Invalid UTF-8 behind the label does no harm; before it, it hides it.
    d[40..72].copy_from_slice(b"SCOUR\xff\xff                         ");
    assert!(is_scour_boot_medium(&d));
    d[40..72].copy_from_slice(b"\xffSCOUR                          ");
    assert!(!is_scour_boot_medium(&d));
    // A no-break space in UTF-8 is white space too.
    d[40..72].copy_from_slice("\u{a0}SCOUR                         ".as_bytes());
    assert!(is_scour_boot_medium(&d));
    d[0] = 2;
    assert!(!is_scour_boot_medium(&d));
    assert!(is_boot_label("SCOUR"));
    assert!(!is_boot_label("scour"));
}

fn attrs(size: &str) -> SysfsAttributes {
    SysfsAttributes {
        size: Some(size.to_string()),
        rotational: Some("1\n".to_string()),
        model: Some("  WDC WD10  \n".to_string()),
        serial: None,
        wwid: Some("naa.5000\n".to_string()),
        removable: Some("0\n".to_string()),
        link: Some("/ata1/".to_string()),
    }
}

#[test]
fn sysfs_entries_become_disks() {
    let d = disk_from_sysfs("sda", &attrs("2048\n"), None).unwrap();
    assert_eq!(d.path, "/dev/sda");
    assert_eq!(d.model, "WDC WD10");
    assert_eq!(d.serial, "naa.5000");
    assert_eq!(d.size_bytes, 2048 * 512);
    assert_eq!(d.bus, Bus::Sata);
    assert_eq!(d.kind, MediaKind::Hdd);
    assert!(!d.removable && !d.simulated);
    assert_eq!(d.throttle_bps, None);
    assert!(disk_from_sysfs("sda", &attrs("0"), None).is_none());
    assert!(disk_from_sysfs("sda", &attrs("junk"), None).is_none());
    assert!(disk_from_sysfs("loop0", &attrs("2048"), None).is_none());
    let mut bare = attrs("8");
    bare.model = Some(" \n".to_string());
    bare.wwid = None;
    bare.rotational = None;
    let d = disk_from_sysfs("sdb", &bare, Some(LockReason::InUse)).unwrap();
    assert_eq!(d.model, "unknown model");
    assert_eq!(d.serial, "—");
    assert_eq!(d.kind, MediaKind::Ssd);
    assert!(d.is_locked());
}

fn entry(name: &str, size: &str) -> SysfsEntry {
    SysfsEntry {
        name: name.to_string(),
        attributes: attrs(size),
        has_holders: false,
        descriptor: None,
    }
}

#[test]
fn disks_are_listed_by_name() {
    let entries = vec![
        entry("sdb", "8"),
        entry("loop0", "8"),
        entry("nvme0n1", "8"),
        entry("sdc", "0"),
        entry("sda", "8"),
        entry("sdaa", "8"),
    ];
    let disks = SysfsProvider::new().refresh(&entries, &None, &None);
    let names: Vec<&str> = disks.iter().map(|d| d.name.as_str()).collect();
    assert_eq!(names, vec!["nvme0n1", "sda", "sdaa", "sdb"]);
    assert!(disks.iter().all(|d| !d.is_locked()));
    assert!(SysfsProvider::new().refresh(&Vec::new(), &None, &None).is_empty());
}

#[test]
fn disks_in_use_are_listed_locked() {
    let mut held = entry("sdd", "8");
    held.has_holders = true;
    let mut boot = entry("sde", "8");
    let mut d = vec![0u8; 2048];
    d[0] = 1;
    d[1..6].copy_from_slice(b"CD001");
    d[40..45].copy_from_slice(b"SCOUR");
    boot.descriptor = Some(d.clone());
    let mut cut = entry("sdf", "8");
    cut.descriptor = Some(d[..100].to_vec());
    let entries = vec![entry("sda", "8"), entry("sdb", "8"), entry("sdaa", "8"), held, boot, cut];
    let mounts = Some("/dev/sda2 / ext4 rw 0 0\nproc /proc proc rw 0 0\n".to_string());
    let swaps = Some("Filename Type\n/dev/sdb1 partition 1 0 -2\n".to_string());
    let locks: Vec<(String, Option<LockReason>)> = SysfsProvider::new()
        .refresh(&entries, &mounts, &swaps)
        .into_iter()
        .map(|d| (d.name, d.lock))
        .collect();
    let want = [
        ("sda", Some(LockReason::Mounted)),
        ("sdaa", None),
        ("sdb", Some(LockReason::SwapActive)),
        ("sdd", Some(LockReason::InUse)),
        ("sde", Some(LockReason::BootMedium)),
        ("sdf", None),
    ];
    assert_eq!(locks, want.map(|(n, l)| (n.to_string(), l)));
}

#[test]
fn attribute_files() {
    assert_eq!(read_u64(&Some("  +17 \n".to_string())), Some(17));
    assert_eq!(read_u64(&Some("-1".to_string())), None);
    assert_eq!(read_u64(&Some("18446744073709551616".to_string())), None);
    assert_eq!(read_u64(&Some("18446744073709551615".to_string())), Some(u64::MAX));
    assert_eq!(read_u64(&None), None);
    assert_eq!(read_string(&Some(" \t\n".to_string())), None);
    assert_eq!(sys_path("sda", "queue/rotational"), "/sys/block/sda/queue/rotational");
    assert_eq!(device_path("sda"), "/dev/sda");
    assert_eq!(SysfsProvider::new().root(), "/sys/block");
    assert!(!SysfsProvider::default().is_simulation());
}

#[test]
fn scanning_agrees_with_std() {
    let samples = [
        "",
        "\n",
        "a\nb",
        "a\r\nb\n",
        "a\n\nb\r",
        "\r\n\r\n",
        " \u{a0}x y\u{3000}",
        "é ü\n",
        "+",
        "+7",
        "007",
        "1 2",
        "99999999999999999999",
        " kB kB",
        "x kB",
    ];
    for s in samples {
        assert_eq!(lines(s), s.lines().map(|l| l.to_string()).collect::<Vec<_>>(), "{s:?}");
        assert_eq!(trim(s), s.trim(), "{s:?}");
        assert_eq!(
            first_word(s),
            s.split_whitespace().next().map(|w| w.to_string()),
            "{s:?}"
        );
        assert_eq!(parse_u64(s), s.parse().ok(), "{s:?}");
        assert_eq!(trim_end_matches(s, " kB"), s.trim_end_matches(" kB"), "{s:?}");
    }
    for c in ('\0'..='\u{ffff}').chain('\u{10000}'..='\u{10100}') {
        let s = c.to_string();
        assert_eq!(trim(&s).is_empty(), c.is_whitespace(), "{c:?}");
    }
}

#[test]
fn collect_never_panics() {
    let info = collect(1, None, None, None);
    assert!(info.cpu_cores >= 1);
    assert!(!info.kernel.is_empty());
    assert!(!info.cpu_model.is_empty());
}

#[test]
fn host_summary_from_proc() {
    let cpuinfo = "processor\t: 0\nvendor_id\t: X\nmodel name\t: Fast CPU: 8 cores\nmodel name\t: no\n";
    assert_eq!(linux_cpu_model(cpuinfo), Some("Fast CPU".to_string()));
    assert_eq!(linux_cpu_model("Processor without a colon\nmodel name: late"), None);
    assert_eq!(linux_cpu_model("nothing"), None);
    let meminfo = "MemFree: 1 kB\nMemTotal:       32768 kB\n";
    assert_eq!(linux_mem_kib(meminfo), Some(32768));
    assert_eq!(linux_mem_total(meminfo), Some(32768 * 1024));
    assert_eq!(linux_mem_total("MemTotal: lots kB\nMemTotal: 5 kB"), None);
    assert_eq!(linux_kernel("6.6.1\n"), "Linux 6.6.1");
    let info = collect(
        8,
        Some(cpuinfo.to_string()),
        Some("MemTotal: 31250000 kB".to_string()),
        Some("6.6".to_string()),
    );
    assert_eq!(info.cpu_model, "Fast CPU");
    assert_eq!(info.mem_human(), "32.0 GB");
    assert_eq!(info.clone().kernel, "Linux 6.6");
    let none = collect(2, None, None, None);
    assert_eq!(none.mem_human(), "—");
    assert_eq!(none.cpu_model, "unknown CPU");
    assert_eq!(none.kernel, "linux");
}
