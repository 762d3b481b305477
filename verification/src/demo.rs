//! Simulation provider: realistic-looking disks backed by sparse temp files.
//!
//! Used automatically when DBAN runs on a non-Linux host or without root,
//! and explicitly via `--demo`. Throughput is throttled per "disk" so the
//! progress UI behaves like real hardware instead of finishing instantly.

use vstd::prelude::*;

use crate::device::{Bus, Disk, DiskModel, LockReason, MediaKind};
use crate::firmware::hidden_areas_spec;
use crate::text::{chars_of, push_text};

verus! {

/// One mebibyte.
pub const MIB: u64 = 1_048_576;

/// A simulated disk.
pub struct DemoSpec {
    pub name: &'static str,
    pub model: &'static str,
    pub serial: &'static str,
    pub size: u64,
    pub bus: Bus,
    pub kind: MediaKind,
    pub removable: bool,
    pub lock: Option<LockReason>,
    /// Simulated sustained throughput, bytes/sec.
    pub throttle: u64,
    /// Hidden sectors beyond the advertised size (simulated HPA/DCO): the
    /// backing file is made this much larger than `size`, so revealing the
    /// hidden area expands the wipe to cover it.
    pub hidden: u64,
}

/// A [`DemoSpec`], with its texts as sequences.
pub struct DemoModel {
    pub name: Seq<char>,
    pub model: Seq<char>,
    pub serial: Seq<char>,
    pub size: u64,
    pub bus: Bus,
    pub kind: MediaKind,
    pub removable: bool,
    pub lock: Option<LockReason>,
    pub throttle: u64,
    pub hidden: u64,
}

impl View for DemoSpec {
    type V = DemoModel;

    open spec fn view(&self) -> DemoModel {
        DemoModel {
            name: self.name@,
            model: self.model@,
            serial: self.serial@,
            size: self.size,
            bus: self.bus,
            kind: self.kind,
            removable: self.removable,
            lock: self.lock,
            throttle: self.throttle,
            hidden: self.hidden,
        }
    }
}

/// The simulated disks, in the order in which they are listed.
pub open spec fn demo_specs() -> Seq<DemoModel> {
    seq![
        DemoModel {
            name: "sda"@,
            model: "Seagate Barracuda ST2000 (sim)"@,
            serial: "Z4Z0DEMO"@,
            size: 201_326_592,
            bus: Bus::Sata,
            kind: MediaKind::Hdd,
            removable: false,
            lock: None,
            throttle: 14_680_064,
            hidden: 67_108_864,
        },
        DemoModel {
            name: "sdb"@,
            model: "Samsung SSD 870 EVO (sim)"@,
            serial: "S62ADEMO"@,
            size: 268_435_456,
            bus: Bus::Sata,
            kind: MediaKind::Ssd,
            removable: false,
            lock: None,
            throttle: 54_525_952,
            hidden: 0,
        },
        DemoModel {
            name: "nvme0n1"@,
            model: "Samsung SSD 980 PRO (sim)"@,
            serial: "S5GXDEMO"@,
            size: 402_653_184,
            bus: Bus::Nvme,
            kind: MediaKind::Ssd,
            removable: false,
            lock: None,
            throttle: 115_343_360,
            hidden: 0,
        },
        DemoModel {
            name: "sdc"@,
            model: "SanDisk Ultra USB 3.0 (sim)"@,
            serial: "4C53DEMO"@,
            size: 134_217_728,
            bus: Bus::Usb,
            kind: MediaKind::Ssd,
            removable: true,
            lock: None,
            throttle: 9_437_184,
            hidden: 0,
        },
        DemoModel {
            name: "sdd"@,
            model: "DBAN boot medium (sim)"@,
            serial: "BOOTDEMO"@,
            size: 67_108_864,
            bus: Bus::Usb,
            kind: MediaKind::Ssd,
            removable: true,
            lock: Some(LockReason::BootMedium),
            throttle: 9_437_184,
            hidden: 0,
        },
    ]
}

/// The simulated disks, in the order in which they are listed.
pub fn specs() -> (v: Vec<DemoSpec>)
    ensures
        v@.map_values(|s: DemoSpec| s@) == demo_specs(),
{
    let v = vec![
        DemoSpec {
            name: "sda",
            model: "Seagate Barracuda ST2000 (sim)",
            serial: "Z4Z0DEMO",
            size: 192 * MIB,
            bus: Bus::Sata,
            kind: MediaKind::Hdd,
            removable: false,
            lock: None,
            throttle: 14 * MIB,
            hidden: 64 * MIB,  // simulated HPA: 64 MiB hidden above the 192 MiB seen
        },
        DemoSpec {
            name: "sdb",
            model: "Samsung SSD 870 EVO (sim)",
            serial: "S62ADEMO",
            size: 256 * MIB,
            bus: Bus::Sata,
            kind: MediaKind::Ssd,
            removable: false,
            lock: None,
            throttle: 52 * MIB,
            hidden: 0,
        },
        DemoSpec {
            name: "nvme0n1",
            model: "Samsung SSD 980 PRO (sim)",
            serial: "S5GXDEMO",
            size: 384 * MIB,
            bus: Bus::Nvme,
            kind: MediaKind::Ssd,
            removable: false,
            lock: None,
            throttle: 110 * MIB,
            hidden: 0,
        },
        DemoSpec {
            name: "sdc",
            model: "SanDisk Ultra USB 3.0 (sim)",
            serial: "4C53DEMO",
            size: 128 * MIB,
            bus: Bus::Usb,
            kind: MediaKind::Ssd,
            removable: true,
            lock: None,
            throttle: 9 * MIB,
            hidden: 0,
        },
        DemoSpec {
            name: "sdd",
            model: "DBAN boot medium (sim)",
            serial: "BOOTDEMO",
            size: 64 * MIB,
            bus: Bus::Usb,
            kind: MediaKind::Ssd,
            removable: true,
            lock: Some(LockReason::BootMedium),
            throttle: 9 * MIB,
            hidden: 0,
        },
    ];
    assert(v@.map_values(|s: DemoSpec| s@) =~= demo_specs());
    v
}

/// A file name inside a directory.
pub open spec fn joined(dir: Seq<char>, leaf: Seq<char>) -> Seq<char> {
    if dir.len() == 0 || dir.last() == '/' {
        dir + leaf
    } else {
        dir + seq!['/'] + leaf
    }
}

/// The disk that a simulated one presents as, backed by a file in `dir`.
pub open spec fn demo_disk(dir: Seq<char>, s: DemoModel) -> DiskModel {
    DiskModel {
        path: joined(dir, s.name + ".img"@),
        name: s.name,
        model: s.model,
        serial: s.serial,
        size_bytes: s.size,
        bus: s.bus,
        kind: s.kind,
        removable: s.removable,
        lock: s.lock,
        simulated: true,
        throttle_bps: Some(s.throttle),
    }
}

/// A provider of simulated disks backed by sparse files in one directory.
pub struct DemoProvider {
    dir: String,
}

impl View for DemoProvider {
    type V = Seq<char>;

    closed spec fn view(&self) -> Seq<char> {
        self.dir@
    }
}

impl DemoProvider {
    /// The provider whose backing files live in `dir`.
    pub fn new(dir: String) -> (p: Self)
        ensures
            p@ == dir@,
    {
        DemoProvider { dir }
    }

    /// Where the backing files live (useful for inspection and cleanup).
    pub fn dir(&self) -> (d: &String)
        ensures
            d@ == self@,
    {
        &self.dir
    }

    /// The simulated disks, each with the length that its backing file must
    /// have: the advertised size and what it hides, so a simulated HPA/DCO can
    /// be detected (file length > advertised size) and revealed.
    pub fn disks(&self) -> (v: Vec<(Disk, u64)>)
        ensures
            v@.len() == demo_specs().len(),
            forall|i: int|
                0 <= i < v@.len() ==> (#[trigger] v@[i]).0@ == demo_disk(self@, demo_specs()[i])
                    && v@[i].1 == demo_specs()[i].size + demo_specs()[i].hidden,
    {
        let all = specs();
        let mut v: Vec<(Disk, u64)> = Vec::new();
        let mut i: usize = 0;
        assert(all@.len() == 5) by {
            assert(all@.map_values(|s: DemoSpec| s@).len() == all@.len());
        }
        while i < all.len()
            invariant
                i <= all@.len() == 5,
                all@.map_values(|s: DemoSpec| s@) == demo_specs(),
                v@.len() == i,
                forall|j: int|
                    0 <= j < i ==> (#[trigger] v@[j]).0@ == demo_disk(self@, demo_specs()[j])
                        && v@[j].1 == demo_specs()[j].size + demo_specs()[j].hidden,
            decreases all@.len() - i,
        {
            let s = &all[i];
            assert(demo_specs()[i as int] == all@[i as int]@) by {
                assert(all@.map_values(|s: DemoSpec| s@)[i as int] == all@[i as int]@);
            }
            let mut leaf = s.name.to_owned();
            push_text(&mut leaf, ".img");
            let mut path = self.dir.clone();
            let cs = chars_of(path.as_str());
            if cs.len() > 0 && cs[cs.len() - 1] != '/' {
                path.push('/');
            }
            push_text(&mut path, leaf.as_str());
            assert(path@ =~= joined(self@, s.name@ + ".img"@));
            v.push(
                (
                    Disk {
                        path,
                        name: s.name.to_owned(),
                        model: s.model.to_owned(),
                        serial: s.serial.to_owned(),
                        size_bytes: s.size,
                        bus: s.bus,
                        kind: s.kind,
                        removable: s.removable,
                        lock: s.lock,
                        simulated: true,
                        throttle_bps: Some(s.throttle),
                    },
                    s.size + s.hidden,
                ),
            );
            i += 1;
        }
        v
    }

    /// The disks are simulated files, not hardware.
    pub fn is_simulation(&self) -> (b: bool)
        ensures
            b,
    {
        true
    }
}

/// Exactly one simulated disk, the last, is locked: it plays the boot medium.
pub proof fn law_one_demo_disk_is_locked(i: int)
    requires
        0 <= i < demo_specs().len(),
    ensures
        demo_specs()[i].lock is Some <==> i == 4,
        demo_specs()[4].lock == Some(LockReason::BootMedium),
{
}

/// The first simulated disk hides 64 MiB above what it advertises; the others
/// hide nothing.
pub proof fn law_first_demo_disk_hides_sectors(i: int, dir: Seq<char>)
    requires
        0 <= i < demo_specs().len(),
    ensures
        ({
            let file_len = (demo_specs()[i].size + demo_specs()[i].hidden) as u64;
            let h = hidden_areas_spec(demo_disk(dir, demo_specs()[i]), Some(file_len), None);
            &&& h.hidden_spec() * h.sector_size == if i == 0 {
                64 * MIB as int
            } else {
                0
            }
            &&& h.native_sectors > h.current_sectors <==> i == 0
        }),
{
    let file_len = (demo_specs()[i].size + demo_specs()[i].hidden) as u64;
    let h = hidden_areas_spec(demo_disk(dir, demo_specs()[i]), Some(file_len), None);
    assert(h.sector_size == 512);
    assert(h.hidden_spec() == if i == 0 { 131_072nat } else { 0nat });
    assert(h.hidden_spec() * 512 == if i == 0 { 64 * MIB as int } else { 0 });
}

/// A simulated disk is marked as such whatever bus it presents, keeps its lock and its
/// pace, and is backed by a file of its own name in the directory.
pub proof fn law_demo_disks_are_simulated(dir: Seq<char>, s: DemoModel)
    ensures
        ({
            let d = demo_disk(dir, s);
            &&& d.simulated
            &&& d.name == s.name
            &&& d.size_bytes == s.size
            &&& d.lock == s.lock
            &&& d.throttle_bps == Some(s.throttle)
            &&& d.bus == s.bus && d.kind == s.kind
            &&& dir.is_prefix_of(d.path)
            &&& (s.name + ".img"@).is_suffix_of(d.path)
        }),
{
    let d = demo_disk(dir, s);
    let leaf = s.name + ".img"@;
    assert(d.path.subrange(0, dir.len() as int) =~= dir);
    assert(d.path.subrange(d.path.len() - leaf.len(), d.path.len() as int) =~= leaf);
}

} // verus!
