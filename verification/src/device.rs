//! Disk model and the provider abstraction.
//!
//! Real hardware is described by the [`linux`](crate::linux) module. The
//! [`demo`](crate::demo) provider serves simulated disks backed by temp files
//! so the full UI and engine can run anywhere without touching real storage.

use vstd::arithmetic::power2::{lemma_pow2_adds, pow2};
use vstd::prelude::*;

use crate::binary64::{
    bin64_at_least, bin64_of, bin64_quotient, bin64_scaled, lemma_filled_by, lemma_of, lemma_pow2_monotone,
    lemma_pow2_values, Bin64, Float, MANT_END,
};
use crate::error::CoreError;
use crate::text::{dec, digit_char, push_dec, push_text};

verus! {

/// The transport a disk is attached by. Used for display and to route
/// firmware-erase commands (ATA vs. NVMe).
#[derive(Clone, Copy, Debug, PartialEq, Eq, Structural)]
pub enum Bus {
    /// Serial ATA.
    Sata,
    /// NVM Express.
    Nvme,
    /// USB mass storage.
    Usb,
    /// VirtIO block (virtual machines).
    Virtio,
    /// SD/MMC card.
    Mmc,
    /// Simulated demo disk.
    Demo,
    /// Bus could not be determined.
    Unknown,
}

impl Bus {
    /// The display label.
    pub open spec fn label_spec(self) -> Seq<char> {
        match self {
            Bus::Sata => "SATA"@,
            Bus::Nvme => "NVMe"@,
            Bus::Usb => "USB"@,
            Bus::Virtio => "VirtIO"@,
            Bus::Mmc => "MMC"@,
            Bus::Demo => "DEMO"@,
            Bus::Unknown => "?"@,
        }
    }

    /// Short display label, e.g. `"SATA"`.
    pub fn label(&self) -> (s: &'static str)
        ensures
            s@ == self.label_spec(),
    {
        match self {
            Bus::Sata => "SATA",
            Bus::Nvme => "NVMe",
            Bus::Usb => "USB",
            Bus::Virtio => "VirtIO",
            Bus::Mmc => "MMC",
            Bus::Demo => "DEMO",
            Bus::Unknown => "?",
        }
    }
}

/// Physical media type, which drives the SSD over-provisioning advisory.
#[derive(Clone, Copy, Debug, PartialEq, Eq, Structural)]
pub enum MediaKind {
    /// Rotational hard disk.
    Hdd,
    /// Solid-state / flash.
    Ssd,
}

impl MediaKind {
    /// The display label.
    pub open spec fn label_spec(self) -> Seq<char> {
        match self {
            MediaKind::Hdd => "HDD"@,
            MediaKind::Ssd => "SSD"@,
        }
    }

    /// Short display label, e.g. `"SSD"`.
    pub fn label(&self) -> (s: &'static str)
        ensures
            s@ == self.label_spec(),
    {
        match self {
            MediaKind::Hdd => "HDD",
            MediaKind::Ssd => "SSD",
        }
    }
}

/// Why a disk can never be selected for wiping in this session.
#[derive(Clone, Copy, Debug, PartialEq, Eq, Structural)]
pub enum LockReason {
    /// The disk (or one of its partitions) is mounted.
    Mounted,
    /// A partition is in use as swap.
    SwapActive,
    /// The disk appears to hold the running DBAN boot medium.
    BootMedium,
    /// Another kernel subsystem holds the device (RAID member, dm, ...).
    InUse,
}

impl LockReason {
    /// The display label.
    pub open spec fn label_spec(self) -> Seq<char> {
        match self {
            LockReason::Mounted => "mounted"@,
            LockReason::SwapActive => "active swap"@,
            LockReason::BootMedium => "boot medium"@,
            LockReason::InUse => "in use"@,
        }
    }

    /// Short display label, e.g. `"mounted"`.
    pub fn label(&self) -> (s: &'static str)
        ensures
            s@ == self.label_spec(),
    {
        match self {
            LockReason::Mounted => "mounted",
            LockReason::SwapActive => "active swap",
            LockReason::BootMedium => "boot medium",
            LockReason::InUse => "in use",
        }
    }
}

/// A storage device, real or simulated, as presented to the UI and engine.
#[derive(Debug)]
pub struct Disk {
    /// Path the engine opens for writing (`/dev/sda`, or a temp file in demo mode).
    pub path: String,
    /// Kernel name (`sda`, `nvme0n1`) or demo identifier.
    pub name: String,
    /// Model string reported by the device.
    pub model: String,
    /// Serial number (or WWID) reported by the device.
    pub serial: String,
    /// Capacity in bytes.
    pub size_bytes: u64,
    /// Transport the disk is attached by.
    pub bus: Bus,
    /// Rotational vs. solid-state.
    pub kind: MediaKind,
    /// Whether the device is removable (USB stick, card).
    pub removable: bool,
    /// `Some(reason)` makes the disk permanently unselectable this session.
    pub lock: Option<LockReason>,
    /// True for a simulated (temp-file-backed) disk. The engine and firmware
    /// modules use this, never the bus label, to decide between real device
    /// I/O / ioctl and simulation, since demo disks carry realistic bus labels.
    pub simulated: bool,
    /// Demo-mode rate limit in bytes/sec, so simulated wipes progress at a
    /// believable, watchable pace. Always `None` for real hardware.
    pub throttle_bps: Option<u64>,
}

/// A disk, with its texts as sequences.
pub struct DiskModel {
    pub path: Seq<char>,
    pub name: Seq<char>,
    pub model: Seq<char>,
    pub serial: Seq<char>,
    pub size_bytes: u64,
    pub bus: Bus,
    pub kind: MediaKind,
    pub removable: bool,
    pub lock: Option<LockReason>,
    pub simulated: bool,
    pub throttle_bps: Option<u64>,
}

impl View for Disk {
    type V = DiskModel;

    open spec fn view(&self) -> DiskModel {
        DiskModel {
            path: self.path@,
            name: self.name@,
            model: self.model@,
            serial: self.serial@,
            size_bytes: self.size_bytes,
            bus: self.bus,
            kind: self.kind,
            removable: self.removable,
            lock: self.lock,
            simulated: self.simulated,
            throttle_bps: self.throttle_bps,
        }
    }
}

impl Clone for Disk {
    fn clone(&self) -> (d: Self)
        ensures
            d@ == self@,
    {
        Disk {
            path: self.path.clone(),
            name: self.name.clone(),
            model: self.model.clone(),
            serial: self.serial.clone(),
            size_bytes: self.size_bytes,
            bus: self.bus,
            kind: self.kind,
            removable: self.removable,
            lock: self.lock,
            simulated: self.simulated,
            throttle_bps: self.throttle_bps,
        }
    }
}

impl Disk {
    /// True when the disk is locked and can never be selected this session.
    pub fn is_locked(&self) -> (b: bool)
        ensures
            b == (self.lock is Some),
    {
        self.lock.is_some()
    }

    /// Capacity formatted in vendor-style decimal units (e.g. `"500 GB"`).
    pub fn size_human(&self) -> (s: String)
        ensures
            s@ == human(self.size_bytes as nat),
    {
        human_bytes(self.size_bytes)
    }
}

/// Source of disks. Implementations: sysfs (Linux) and demo (anywhere).
pub trait DiskProvider: Send {
    /// Re-enumerate attached disks.
    fn refresh(&mut self) -> Result<Vec<Disk>, CoreError>;

    /// True when the disks are simulated files, not hardware.
    fn is_simulation(&self) -> bool;
}

/// Whether real hardware is wanted: the flag for it says so, or the program runs
/// as the init process or as root and the flag for the simulation is not given.
pub fn wants_real(force_demo: bool, force_real: bool, pid1: bool, is_root: bool) -> (b: bool)
    ensures
        b == (force_real || ((pid1 || is_root) && !force_demo)),
{
    force_real || ((pid1 || is_root) && !force_demo)
}

/// `x` divided by 1000 while it is at least 1000 and a larger unit is left,
/// with the index of the unit.
pub open spec fn in_unit(x: Bin64, unit: nat) -> (Bin64, nat)
    decreases 5 - unit,
{
    if bin64_at_least(x, 1000) && unit < 5 {
        in_unit(bin64_quotient(x, bin64_of(1000)), unit + 1)
    } else {
        (x, unit)
    }
}

/// The name of the unit `1000^unit` bytes.
pub open spec fn unit_name(unit: nat) -> Seq<char> {
    if unit == 0 {
        "B"@
    } else if unit == 1 {
        "KB"@
    } else if unit == 2 {
        "MB"@
    } else if unit == 3 {
        "GB"@
    } else if unit == 4 {
        "TB"@
    } else {
        "PB"@
    }
}

/// `n` bytes in vendor-style decimal units: whole below 1000 bytes, and else
/// three significant digits of the binary64 quotient.
pub open spec fn human(n: nat) -> Seq<char> {
    if n < 1000 {
        dec(n) + " B"@
    } else {
        let (x, unit) = in_unit(bin64_of(n), 0);
        let number = if bin64_at_least(x, 100) {
            dec(bin64_scaled(x, 1))
        } else if bin64_at_least(x, 10) {
            let v = bin64_scaled(x, 10);
            dec(v / 10) + seq!['.', digit_char(v % 10)]
        } else {
            let v = bin64_scaled(x, 100);
            dec(v / 100) + seq!['.', digit_char(v % 100 / 10), digit_char(v % 10)]
        };
        number + seq![' '] + unit_name(unit)
    }
}

fn push_unit(s: &mut String, unit: u64)
    ensures
        final(s)@ == old(s)@ + unit_name(unit as nat),
{
    if unit == 0 {
        push_text(s, "B");
    } else if unit == 1 {
        push_text(s, "KB");
    } else if unit == 2 {
        push_text(s, "MB");
    } else if unit == 3 {
        push_text(s, "GB");
    } else if unit == 4 {
        push_text(s, "TB");
    } else {
        push_text(s, "PB");
    }
}

/// Vendor-style decimal units (a "500 GB" drive shows as 500 GB).
pub fn human_bytes(n: u64) -> (s: String)
    ensures
        s@ == human(n as nat),
{
    let mut s = String::new();
    if n < 1000 {
        push_dec(&mut s, n);
        push_text(&mut s, " B");
        assert(s@ =~= human(n as nat));
        return s;
    }
    let mut x = Float::of(n as u128);
    let thousand = Float::of(1000);
    let mut unit: u64 = 0;
    proof {
        lemma_pow2_values();
        lemma_of(n as nat, 11);
        lemma_filled_by(1000, 0, 43);
    }
    while x.at_least(1000) && unit < 5
        invariant
            x.wf(),
            thousand.wf(),
            thousand.model() == bin64_of(1000),
            thousand.e == -43,
            unit <= 5,
            -53 <= x.e <= 12 - 8 * unit,
            in_unit(x.model(), unit as nat) == in_unit(bin64_of(n as nat), 0),
        decreases 5 - unit,
    {
        proof {
            // A number of at least 1000 has an exponent of at least -43.
            if x.e < -43 {
                lemma_pow2_values();
                lemma_pow2_monotone(44, (-x.e) as nat);
                lemma_pow2_adds(1, 43);
                assert(x.m < 1000 * pow2((-x.e) as nat));
            }
        }
        x = x.quotient(&thousand);
        unit += 1;
    }
    assert(x.e < 0);
    assert(x.m * 1 <= MANT_END && x.m * 10 <= 10 * MANT_END && x.m * 100 <= 100 * MANT_END);
    if x.at_least(100) {
        let v: u64 = x.scaled(1) as u64;
        push_dec(&mut s, v);
    } else if x.at_least(10) {
        let v: u64 = x.scaled(10) as u64;
        push_dec(&mut s, v / 10);
        s.push('.');
        s.push((48 + (v % 10) as u8) as char);
    } else {
        let v: u64 = x.scaled(100) as u64;
        push_dec(&mut s, v / 100);
        s.push('.');
        s.push((48 + (v % 100 / 10) as u8) as char);
        s.push((48 + (v % 10) as u8) as char);
    }
    s.push(' ');
    push_unit(&mut s, unit);
    assert(s@ =~= human(n as nat));
    s
}

} // verus!
