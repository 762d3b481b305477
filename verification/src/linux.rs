//! Real-hardware disk discovery from what sysfs and procfs say (Linux only).
//!
//! Every disk gets a conservative lock analysis before it is ever shown as
//! wipeable:
//! * any mounted partition (or the whole-disk device itself) → `Mounted`
//! * any active swap partition → `SwapActive`
//! * kernel holders (dm/RAID/LVM members) → `InUse`
//! * an ISO9660 signature whose volume label starts with `SCOUR` → `BootMedium`
//!   (that's the stick the live system booted from)
//!
//! The program reads the files; this module says what they mean.

use vstd::multiset::Multiset;
use vstd::prelude::*;
use vstd::utf8::{decode_utf8, valid_utf8};

use crate::device::{Bus, Disk, DiskModel, LockReason, MediaKind};
use crate::engine::text_model;
use crate::scan::{
    all_digits, contains, first_word, first_word_of, holds, is_digits, lines, lines_of, number_of, parse_u64,
    starts_with, strip_prefix, texts, trim, trim_start, trimmed, trimmed_start,
};
use crate::text::{chars_of, push_text, same};

verus! {

/// Volume label prefix stamped onto the live ISO.
pub const BOOT_LABEL_PREFIX: &'static str = "SCOUR";

/// Where the ISO9660 Primary Volume Descriptor of a medium starts.
pub const DESCRIPTOR_OFFSET: u64 = 32768;

/// Where the kernel lists the block devices, and the disks in it.
pub struct SysfsProvider {
    root: String,
}

impl View for SysfsProvider {
    type V = Seq<char>;

    closed spec fn view(&self) -> Seq<char> {
        self.root@
    }
}

impl SysfsProvider {
    /// The provider of the running system.
    pub fn new() -> (p: Self)
        ensures
            p@ == "/sys/block"@,
    {
        SysfsProvider { root: "/sys/block".to_owned() }
    }

    /// The directory with an entry per block device.
    pub fn root(&self) -> (s: &str)
        ensures
            s@ == self@,
    {
        self.root.as_str()
    }

    /// The disks are hardware.
    pub fn is_simulation(&self) -> (b: bool)
        ensures
            !b,
    {
        false
    }
}

impl Default for SysfsProvider {
    fn default() -> (p: Self)
        ensures
            p@ == "/sys/block"@,
    {
        Self::new()
    }
}

/// The path of an attribute file of the disk `name`.
pub fn sys_path(name: &str, leaf: &str) -> (s: String)
    ensures
        s@ == "/sys/block/"@ + name@ + "/"@ + leaf@,
{
    let mut s = "/sys/block/".to_owned();
    push_text(&mut s, name);
    push_text(&mut s, "/");
    push_text(&mut s, leaf);
    s
}

/// Whether a kernel name is that of a pseudo or stacked device.
pub open spec fn is_pseudo(name: Seq<char>) -> bool {
    ||| "loop"@.is_prefix_of(name)
    ||| "ram"@.is_prefix_of(name)
    ||| "zram"@.is_prefix_of(name)
    ||| "dm-"@.is_prefix_of(name)
    ||| "md"@.is_prefix_of(name)
    ||| "sr"@.is_prefix_of(name)
    ||| "fd"@.is_prefix_of(name)
    ||| "nbd"@.is_prefix_of(name)
}

/// Pseudo/stacked devices that must never appear in the wipe list.
pub fn should_skip(name: &str) -> (b: bool)
    ensures
        b == is_pseudo(name@),
{
    starts_with(name, "loop") || starts_with(name, "ram") || starts_with(name, "zram")
        || starts_with(name, "dm-") || starts_with(name, "md") || starts_with(name, "sr")
        || starts_with(name, "fd") || starts_with(name, "nbd")
}

/// The value of an attribute file: its text without surrounding white space,
/// if anything is left.
pub open spec fn attribute(content: Option<Seq<char>>) -> Option<Seq<char>> {
    match content {
        Some(s) => if trimmed(s).len() > 0 {
            Some(trimmed(s))
        } else {
            None
        },
        None => None,
    }
}

/// The number in an attribute file.
pub open spec fn attribute_number(content: Option<Seq<char>>) -> Option<u64> {
    match attribute(content) {
        Some(s) => number_of(s),
        None => None,
    }
}

/// The value of an attribute file, from its content if it could be read.
pub fn read_string(content: &Option<String>) -> (r: Option<String>)
    ensures
        text_model(r) == attribute(text_model(*content)),
{
    match content {
        Some(s) => {
            let t = trim(s.as_str());
            if chars_of(t.as_str()).len() > 0 {
                Some(t)
            } else {
                None
            }
        },
        None => None,
    }
}

/// The number in an attribute file, from its content if it could be read.
pub fn read_u64(content: &Option<String>) -> (r: Option<u64>)
    ensures
        r == attribute_number(text_model(*content)),
{
    match read_string(content) {
        Some(s) => parse_u64(s.as_str()),
        None => None,
    }
}

/// The bus of a disk, by its kernel name and else by the topology that its
/// sysfs link walks, if the link could be read.
pub open spec fn bus_of(name: Seq<char>, link: Option<Seq<char>>) -> Bus {
    if "nvme"@.is_prefix_of(name) {
        Bus::Nvme
    } else if "mmcblk"@.is_prefix_of(name) {
        Bus::Mmc
    } else if "vd"@.is_prefix_of(name) {
        Bus::Virtio
    } else {
        match link {
            Some(l) => if holds(l, "/usb"@) {
                Bus::Usb
            } else if holds(l, "/virtio"@) {
                Bus::Virtio
            } else if holds(l, "/ata"@) {
                Bus::Sata
            } else {
                Bus::Unknown
            },
            None => Bus::Unknown,
        }
    }
}

/// The bus of a disk; `link` is the target of its sysfs link.
pub fn detect_bus(name: &str, link: &Option<String>) -> (b: Bus)
    ensures
        b == bus_of(name@, text_model(*link)),
{
    if starts_with(name, "nvme") {
        return Bus::Nvme;
    }
    if starts_with(name, "mmcblk") {
        return Bus::Mmc;
    }
    if starts_with(name, "vd") {
        return Bus::Virtio;
    }
    // The sysfs symlink walks the full device topology.
    match link {
        Some(l) => {
            if contains(l.as_str(), "/usb") {
                return Bus::Usb;
            }
            if contains(l.as_str(), "/virtio") {
                return Bus::Virtio;
            }
            if contains(l.as_str(), "/ata") {
                return Bus::Sata;
            }
            Bus::Unknown
        },
        None => Bus::Unknown,
    }
}

/// Whether line `i` names the device `dev` in its first word.
pub open spec fn names_device(lines: Seq<Seq<char>>, i: int, dev: Seq<char>) -> bool {
    first_word_of(lines[i]) == Some(dev) && "/dev/"@.is_prefix_of(dev)
}

/// Whether a line from `from` up to `to` names the device `dev`.
pub open spec fn names_device_in(lines: Seq<Seq<char>>, from: int, to: int, dev: Seq<char>) -> bool {
    exists|i: int| from <= i < to && #[trigger] names_device(lines, i, dev)
}

/// The devices that the lines from `from` on name.
pub open spec fn devices_in(lines: Seq<Seq<char>>, from: int) -> Set<Seq<char>> {
    Set::new(|d: Seq<char>| names_device_in(lines, from, lines.len() as int, d))
}

/// The devices that the lines of a table from `from` on name, each once.
fn device_paths(table: &str, from: usize) -> (r: Vec<String>)
    ensures
        texts(r@).to_set() == devices_in(lines_of(table@), from as int),
        texts(r@).no_duplicates(),
{
    let ls = lines(table);
    let ghost all = lines_of(table@);
    let mut r: Vec<String> = Vec::new();
    let mut i: usize = from;
    assert(texts(r@) =~= Seq::<Seq<char>>::empty());
    while i < ls.len()
        invariant
            from <= i,
            i <= ls@.len() || i == from,
            texts(ls@) == all,
            texts(r@).no_duplicates(),
            forall|d: Seq<char>|
                #[trigger] texts(r@).contains(d) <==> names_device_in(all, from as int, i as int, d),
        decreases ls@.len() - i,
    {
        assert(all[i as int] == ls@[i as int]@);
        let ghost before = texts(r@);
        let found: Option<String> = first_word(ls[i].as_str());
        let ghost word = text_model(found);
        match found {
            Some(dev) => {
                if starts_with(dev.as_str(), "/dev/") && !is_listed(&r, dev.as_str()) {
                    let ghost name = dev@;
                    r.push(dev);
                    assert(texts(r@) =~= before.push(name));
                }
            },
            None => {},
        }
        assert forall|d: Seq<char>| #[trigger]
            texts(r@).contains(d) <==> names_device_in(all, from as int, i + 1, d) by {
            let here = names_device(all, i as int, d);
            assert(names_device_in(all, from as int, i + 1, d) <==> names_device_in(
                all,
                from as int,
                i as int,
                d,
            ) || here);
            assert(before.contains(d) <==> names_device_in(all, from as int, i as int, d));
            if texts(r@) != before {
                let name = word->0;
                assert(texts(r@) == before.push(name));
                if before.contains(d) {
                    let x = choose|x: int| 0 <= x < before.len() && before[x] == d;
                    assert(texts(r@)[x] == d);
                }
                if d == name {
                    assert(texts(r@)[before.len() as int] == d);
                }
            }
        }
        i += 1;
    }
    assert(texts(r@).to_set() =~= devices_in(all, from as int)) by {
        assert forall|d: Seq<char>| #[trigger]
            texts(r@).contains(d) <==> devices_in(all, from as int).contains(d) by {
        }
    }
    r
}

/// Whether a list holds a text.
pub fn is_listed(v: &Vec<String>, t: &str) -> (b: bool)
    ensures
        b == texts(v@).contains(t@),
{
    let mut i: usize = 0;
    while i < v.len()
        invariant
            i <= v@.len(),
            forall|j: int| 0 <= j < i ==> texts(v@)[j] != t@,
        decreases v@.len() - i,
    {
        assert(texts(v@)[i as int] == v@[i as int]@);
        if same(v[i].as_str(), t) {
            return true;
        }
        i += 1;
    }
    false
}

/// Device paths (e.g. `/dev/sda1`) currently mounted, from `/proc/mounts`.
pub fn mounted_device_paths(mounts: &str) -> (r: Vec<String>)
    ensures
        texts(r@).to_set() == devices_in(lines_of(mounts@), 0),
        texts(r@).no_duplicates(),
{
    device_paths(mounts, 0)
}

/// Device paths in use as swap, from `/proc/swaps`, whose first line is a
/// heading.
pub fn swap_device_paths(swaps: &str) -> (r: Vec<String>)
    ensures
        texts(r@).to_set() == devices_in(lines_of(swaps@), 1),
        texts(r@).no_duplicates(),
{
    device_paths(swaps, 1)
}

/// Whether a text ends in a decimal digit.
pub open spec fn ends_in_digit(s: Seq<char>) -> bool {
    s.len() > 0 && '0' <= s.last() <= '9'
}

/// Whether `dev` is the disk `base` or one of its partitions: the base name and
/// a number, with a `p` between them where the base name ends in a digit.
pub open spec fn belongs(dev: Seq<char>, base: Seq<char>) -> bool {
    dev == base || (base.is_prefix_of(dev) && {
        let rest = dev.skip(base.len() as int);
        if ends_in_digit(base) {
            rest.len() > 0 && rest[0] == 'p' && all_digits(rest.skip(1))
        } else {
            all_digits(rest)
        }
    })
}

/// True when `dev` (e.g. `/dev/sda1`, `/dev/nvme0n1p2`) is the disk `base`
/// (`/dev/sda`) or one of its partitions. Careful about `/dev/sda` vs
/// `/dev/sdaa`: the remainder must be a partition suffix, i.e. `p?[0-9]+`.
pub fn belongs_to(dev: &str, base: &str) -> (b: bool)
    ensures
        b == belongs(dev@, base@),
{
    if same(dev, base) {
        return true;
    }
    let rest = match strip_prefix(dev, base) {
        Some(r) => r,
        None => {
            return false;
        },
    };
    // When the base name ends in a digit (nvme0n1, mmcblk0) the kernel always
    // inserts a 'p' before the partition number; otherwise /dev/nvme0n10
    // (an eleventh namespace) would masquerade as a partition of nvme0n1.
    let cs = chars_of(base);
    let digit = cs.len() > 0 && '0' <= cs[cs.len() - 1] && cs[cs.len() - 1] <= '9';
    if digit {
        let ghost r = rest@;
        proof {
            reveal_strlit("p");
            assert("p"@ =~= seq!['p']);
            if r.len() > 0 {
                assert(r.subrange(0, 1) =~= seq![r[0]]);
                assert(seq![r[0]][0] == r[0]);
                assert(seq!['p'][0] == 'p');
            }
        }
        match strip_prefix(rest.as_str(), "p") {
            Some(d) => is_digits(d.as_str()),
            None => false,
        }
    } else {
        is_digits(rest.as_str())
    }
}

/// Whether one of some devices belongs to the disk `base`.
pub open spec fn any_belongs(devices: Set<Seq<char>>, base: Seq<char>) -> bool {
    exists|d: Seq<char>| #[trigger] devices.contains(d) && belongs(d, base)
}

fn any_belongs_to(devices: &Vec<String>, base: &str) -> (b: bool)
    ensures
        b == any_belongs(texts(devices@).to_set(), base@),
{
    let mut i: usize = 0;
    while i < devices.len()
        invariant
            i <= devices@.len(),
            forall|j: int| 0 <= j < i ==> !belongs(#[trigger] texts(devices@)[j], base@),
        decreases devices@.len() - i,
    {
        assert(texts(devices@)[i as int] == devices@[i as int]@);
        if belongs_to(devices[i].as_str(), base) {
            assert(texts(devices@).to_set().contains(devices@[i as int]@));
            return true;
        }
        i += 1;
    }
    false
}

/// Why the disk at `base` is locked, if it is: the first reason that holds.
pub open spec fn lock_of(
    base: Seq<char>,
    mounted: Set<Seq<char>>,
    swaps: Set<Seq<char>>,
    has_holders: bool,
    is_boot_medium: bool,
) -> Option<LockReason> {
    if any_belongs(mounted, base) {
        Some(LockReason::Mounted)
    } else if any_belongs(swaps, base) {
        Some(LockReason::SwapActive)
    } else if has_holders {
        Some(LockReason::InUse)
    } else if is_boot_medium {
        Some(LockReason::BootMedium)
    } else {
        None
    }
}

/// Why the disk at `dev_path` is locked, if it is. `has_holders` tells whether
/// the kernel lists holders of it (device-mapper, MD-RAID members, ...).
pub fn detect_lock(
    dev_path: &str,
    mounted: &Vec<String>,
    swaps: &Vec<String>,
    has_holders: bool,
    is_boot_medium: bool,
) -> (r: Option<LockReason>)
    ensures
        r == lock_of(
            dev_path@,
            texts(mounted@).to_set(),
            texts(swaps@).to_set(),
            has_holders,
            is_boot_medium,
        ),
{
    if any_belongs_to(mounted, dev_path) {
        return Some(LockReason::Mounted);
    }
    if any_belongs_to(swaps, dev_path) {
        return Some(LockReason::SwapActive);
    }
    if has_holders {
        return Some(LockReason::InUse);
    }
    if is_boot_medium {
        return Some(LockReason::BootMedium);
    }
    None
}

/// A disk with anything mounted or swapped on it, or held by the kernel, or
/// that is the boot medium, is locked; no other disk is.
pub proof fn law_locked_exactly_if_in_use(
    base: Seq<char>,
    mounted: Set<Seq<char>>,
    swaps: Set<Seq<char>>,
    has_holders: bool,
    is_boot_medium: bool,
)
    ensures
        lock_of(base, mounted, swaps, has_holders, is_boot_medium) is Some <==> any_belongs(
            mounted,
            base,
        ) || any_belongs(swaps, base) || has_holders || is_boot_medium,
{
}

/// The first prefix trap: a longer name that goes on with a letter, as
/// `/dev/sdaa` does behind `/dev/sda`, is another disk.
pub proof fn law_longer_name_is_another_disk(base: Seq<char>, more: Seq<char>)
    requires
        more.len() > 0,
        !('0' <= more[0] <= '9'),
        !ends_in_digit(base),
    ensures
        !belongs(base + more, base),
{
    assert((base + more).skip(base.len() as int) =~= more);
    assert((base + more).len() != base.len());
}

/// The second prefix trap: behind a name that ends in a digit, a longer number,
/// as in `/dev/nvme0n10` behind `/dev/nvme0n1`, is another disk.
pub proof fn law_longer_number_is_another_disk(base: Seq<char>, more: Seq<char>)
    requires
        ends_in_digit(base),
        all_digits(more),
    ensures
        !belongs(base + more, base),
{
    assert((base + more).skip(base.len() as int) =~= more);
    assert((base + more).len() != base.len());
    assert('0' <= more[0] <= '9');
}

/// A disk owns itself and its numbered partitions, with a `p` before the number
/// where its own name ends in a digit.
pub proof fn law_partitions_belong(base: Seq<char>, number: Seq<char>)
    requires
        all_digits(number),
    ensures
        belongs(base, base),
        ends_in_digit(base) ==> belongs(base + seq!['p'] + number, base),
        !ends_in_digit(base) ==> belongs(base + number, base),
{
    let with_p = base + seq!['p'] + number;
    assert(with_p.skip(base.len() as int) =~= seq!['p'] + number);
    assert((seq!['p'] + number).skip(1) =~= number);
    assert(with_p.subrange(0, base.len() as int) =~= base);
    assert((base + number).skip(base.len() as int) =~= number);
    assert((base + number).subrange(0, base.len() as int) =~= base);
}

/// What a volume label reads as, however it is encoded.
pub uninterp spec fn lossy_text(bytes: Seq<u8>) -> Seq<char>;

/// `String::from_utf8_lossy` of std: bytes that are UTF-8 read as they are; the
/// result for others is only named.
#[verifier::external_body]
fn from_utf8_lossy(bytes: &[u8]) -> (s: String)
    ensures
        s@ == lossy_text(bytes@),
        valid_utf8(bytes@) ==> s@ == decode_utf8(bytes@),
{
    String::from_utf8_lossy(bytes).into_owned()
}

/// Whether a label is that of the live system.
pub open spec fn is_boot_label_spec(label: Seq<char>) -> bool {
    BOOT_LABEL_PREFIX@.is_prefix_of(trimmed_start(label))
}

/// Whether a volume label is that of the live system.
pub fn is_boot_label(label: &str) -> (b: bool)
    ensures
        b == is_boot_label_spec(label@),
{
    let t = trim_start(label);
    starts_with(t.as_str(), BOOT_LABEL_PREFIX)
}

/// Whether a descriptor is a type 1 volume descriptor with the standard
/// identifier `CD001`.
pub open spec fn is_volume_descriptor(d: Seq<u8>) -> bool {
    d[0] == 1 && d[1] == 67 && d[2] == 68 && d[3] == 48 && d[4] == 48 && d[5] == 49
}

/// Whether a descriptor is that of the live system: its volume id, at bytes 40
/// to 71, is a boot label.
pub open spec fn is_boot_descriptor(d: Seq<u8>) -> bool {
    is_volume_descriptor(d) && is_boot_label_spec(lossy_text(d.subrange(40, 72)))
}

/// Detect the live boot stick: a hybrid ISO carries the ISO9660 Primary
/// Volume Descriptor at byte 32768 of the *device*; its volume id sits at
/// offset 40 within the descriptor. `descriptor` is those 2048 bytes.
pub fn is_scour_boot_medium(descriptor: &[u8]) -> (b: bool)
    requires
        descriptor@.len() == 2048,
    ensures
        b == is_boot_descriptor(descriptor@),
        valid_utf8(descriptor@.subrange(40, 72)) ==> b == (is_volume_descriptor(descriptor@)
            && is_boot_label_spec(decode_utf8(descriptor@.subrange(40, 72)))),
{
    // Type 1 descriptor with the "CD001" standard identifier.
    if descriptor[0] != 1 || descriptor[1] != 67 || descriptor[2] != 68 || descriptor[3] != 48
        || descriptor[4] != 48 || descriptor[5] != 49 {
        return false;
    }
    let label = from_utf8_lossy(vstd::slice::slice_subrange(descriptor, 40, 72));
    is_boot_label(label.as_str())
}

/// What the attribute files of one disk hold, each if it could be read.
#[derive(Debug)]
pub struct SysfsAttributes {
    /// Capacity in sectors of 512 bytes.
    pub size: Option<String>,
    pub rotational: Option<String>,
    pub model: Option<String>,
    pub serial: Option<String>,
    pub wwid: Option<String>,
    pub removable: Option<String>,
    /// Where the disk's sysfs link points.
    pub link: Option<String>,
}

/// The capacity that the attributes tell, in sectors.
pub open spec fn sectors_of(a: SysfsAttributes) -> u64 {
    match attribute_number(text_model(a.size)) {
        Some(n) => n,
        None => 0,
    }
}

/// The first of two texts that there is, or else a third.
pub open spec fn first_text(
    a: Option<Seq<char>>,
    b: Option<Seq<char>>,
    otherwise: Seq<char>,
) -> Seq<char> {
    match a {
        Some(s) => s,
        None => match b {
            Some(s) => s,
            None => otherwise,
        },
    }
}

/// The disk that the attributes describe.
pub open spec fn sysfs_disk(
    name: Seq<char>,
    a: SysfsAttributes,
    lock: Option<LockReason>,
) -> DiskModel {
    DiskModel {
        path: "/dev/"@ + name,
        name,
        model: first_text(attribute(text_model(a.model)), None, "unknown model"@),
        serial: first_text(
            attribute(text_model(a.serial)),
            attribute(text_model(a.wwid)),
            "—"@,
        ),
        size_bytes: (sectors_of(a) * 512) as u64,
        bus: bus_of(name, text_model(a.link)),
        kind: if attribute_number(text_model(a.rotational)) == Some(1u64) {
            MediaKind::Hdd
        } else {
            MediaKind::Ssd
        },
        removable: attribute_number(text_model(a.removable)) == Some(1u64),
        lock,
        simulated: false,
        throttle_bps: None,
    }
}

fn is_one(n: Option<u64>) -> (b: bool)
    ensures
        b == (n == Some(1u64)),
{
    match n {
        Some(v) => v == 1,
        None => false,
    }
}

/// `/dev/` and the kernel name: where the disk `name` is opened.
pub fn device_path(name: &str) -> (s: String)
    ensures
        s@ == "/dev/"@ + name@,
{
    let mut s = "/dev/".to_owned();
    push_text(&mut s, name);
    s
}

/// The disk that a directory entry describes, if it is one to show: pseudo
/// devices are not, nor are empty card readers and absent media.
pub fn disk_from_sysfs(name: &str, a: &SysfsAttributes, lock: Option<LockReason>) -> (r: Option<
    Disk,
>)
    requires
        sectors_of(*a) * 512 <= u64::MAX,
    ensures
        r is Some <==> !is_pseudo(name@) && sectors_of(*a) > 0,
        r matches Some(d) ==> d@ == sysfs_disk(name@, *a, lock),
{
    if should_skip(name) {
        return None;
    }
    let sectors: u64 = match read_u64(&a.size) {
        Some(n) => n,
        None => 0,
    };
    let size_bytes: u64 = sectors * 512;
    if size_bytes == 0 {
        return None;
    }
    let model = match read_string(&a.model) {
        Some(s) => s,
        None => "unknown model".to_owned(),
    };
    let serial = match read_string(&a.serial) {
        Some(s) => s,
        None => match read_string(&a.wwid) {
            Some(s) => s,
            None => "—".to_owned(),
        },
    };
    Some(
        Disk {
            path: device_path(name),
            name: name.to_owned(),
            model,
            serial,
            size_bytes,
            bus: detect_bus(name, &a.link),
            kind: if is_one(read_u64(&a.rotational)) { MediaKind::Hdd } else { MediaKind::Ssd },
            removable: is_one(read_u64(&a.removable)),
            lock,
            simulated: false,
            throttle_bps: None,
        },
    )
}

/// Whether a text comes before another in code point order, or is the same.
pub open spec fn text_le(a: Seq<char>, b: Seq<char>) -> bool
    decreases a.len(),
{
    if a.len() == 0 {
        true
    } else if b.len() == 0 {
        false
    } else if a[0] != b[0] {
        a[0] < b[0]
    } else {
        text_le(a.skip(1), b.skip(1))
    }
}

proof fn lemma_le_total(a: Seq<char>, b: Seq<char>)
    ensures
        text_le(a, b) || text_le(b, a),
    decreases a.len(),
{
    if a.len() > 0 && b.len() > 0 && a[0] == b[0] {
        lemma_le_total(a.skip(1), b.skip(1));
    }
}

proof fn lemma_le_transitive(a: Seq<char>, b: Seq<char>, c: Seq<char>)
    requires
        text_le(a, b),
        text_le(b, c),
    ensures
        text_le(a, c),
    decreases a.len(),
{
    if a.len() > 0 && b.len() > 0 && c.len() > 0 && a[0] == b[0] && b[0] == c[0] {
        lemma_le_transitive(a.skip(1), b.skip(1), c.skip(1));
    }
}

fn not_after(a: &str, b: &str) -> (r: bool)
    ensures
        r == text_le(a@, b@),
{
    let v = chars_of(a);
    let w = chars_of(b);
    let mut i: usize = 0;
    assert(v@.skip(0) =~= a@);
    assert(w@.skip(0) =~= b@);
    loop
        invariant
            i <= v@.len(),
            i <= w@.len(),
            text_le(v@.skip(i as int), w@.skip(i as int)) == text_le(a@, b@),
        decreases v@.len() - i,
    {
        if i == v.len() {
            return true;
        }
        if i == w.len() {
            return false;
        }
        assert(v@.skip(i as int)[0] == v@[i as int]);
        assert(w@.skip(i as int)[0] == w@[i as int]);
        if v[i] != w[i] {
            return v[i] < w[i];
        }
        assert(v@.skip(i as int).skip(1) =~= v@.skip(i + 1));
        assert(w@.skip(i as int).skip(1) =~= w@.skip(i + 1));
        i += 1;
    }
}

/// Whether disks are in the order of their names.
pub open spec fn sorted_by_name(disks: Seq<Disk>) -> bool {
    forall|i: int, j: int|
        0 <= i < j < disks.len() ==> text_le(#[trigger] disks[i].name@, #[trigger] disks[j].name@)
}

/// Puts a disk where its name belongs in an ordered list, and tells where.
fn insert_sorted(disks: &mut Vec<Disk>, d: Disk) -> (at: usize)
    requires
        sorted_by_name(old(disks)@),
    ensures
        sorted_by_name(final(disks)@),
        at <= old(disks)@.len(),
        final(disks)@ == old(disks)@.insert(at as int, d),
{
    let ghost before = disks@;
    let mut i: usize = 0;
    while i < disks.len() && not_after(disks[i].name.as_str(), d.name.as_str())
        invariant
            disks@ == before,
            i <= before.len(),
            forall|j: int| 0 <= j < i ==> text_le(#[trigger] before[j].name@, d.name@),
        decreases before.len() - i,
    {
        i += 1;
    }
    proof {
        let at = i as int;
        assert forall|j: int| at <= j < before.len() implies text_le(
            d.name@,
            #[trigger] before[j].name@,
        ) by {
            lemma_le_total(before[at].name@, d.name@);
            if j > at {
                lemma_le_transitive(d.name@, before[at].name@, before[j].name@);
            }
        }
    }
    disks.insert(i, d);
    proof {
        let at = i as int;
        let after = disks@;
        assert forall|x: int, y: int| 0 <= x < y < after.len() implies text_le(
            #[trigger] after[x].name@,
            #[trigger] after[y].name@,
        ) by {
            let px = if x < at { x } else { x - 1 };
            let py = if y < at { y } else { y - 1 };
            if x != at && y != at {
                assert(text_le(before[px].name@, before[py].name@));
            } else if x == at {
                assert(text_le(d.name@, before[py].name@));
            } else {
                assert(text_le(before[px].name@, d.name@));
            }
        }
    }
    i
}

/// What the program found of one block device.
#[derive(Debug)]
pub struct SysfsEntry {
    /// The kernel name: the entry's file name.
    pub name: String,
    /// What its attribute files hold.
    pub attributes: SysfsAttributes,
    /// Whether the kernel lists holders of the device.
    pub has_holders: bool,
    /// The 2048 bytes at [`DESCRIPTOR_OFFSET`], if they could be read.
    pub descriptor: Option<Vec<u8>>,
}

/// The devices that a table which may not have been read names from line `from`
/// on.
pub open spec fn devices_of(table: Option<Seq<char>>, from: int) -> Set<Seq<char>> {
    match table {
        Some(t) => devices_in(lines_of(t), from),
        None => Set::empty(),
    }
}

/// Whether a device is a disk to show.
pub open spec fn is_shown(e: SysfsEntry) -> bool {
    !is_pseudo(e.name@) && sectors_of(e.attributes) > 0
}

/// Whether a device holds the live system.
pub open spec fn is_boot_entry(e: SysfsEntry) -> bool {
    e.descriptor matches Some(d) && d@.len() == 2048 && is_boot_descriptor(d@)
}

/// The disk that a device is.
pub open spec fn entry_disk(
    e: SysfsEntry,
    mounted: Set<Seq<char>>,
    swaps: Set<Seq<char>>,
) -> DiskModel {
    sysfs_disk(
        e.name@,
        e.attributes,
        lock_of("/dev/"@ + e.name@, mounted, swaps, e.has_holders, is_boot_entry(e)),
    )
}

/// The disks to show among some devices, in whatever order.
pub open spec fn shown_disks(
    entries: Seq<SysfsEntry>,
    mounted: Set<Seq<char>>,
    swaps: Set<Seq<char>>,
) -> Multiset<DiskModel>
    decreases entries.len(),
{
    if entries.len() == 0 {
        Multiset::empty()
    } else {
        let others = shown_disks(entries.drop_last(), mounted, swaps);
        if is_shown(entries.last()) {
            others.insert(entry_disk(entries.last(), mounted, swaps))
        } else {
            others
        }
    }
}

/// Some disks by their views, without their order.
pub open spec fn disk_bag(disks: Seq<Disk>) -> Multiset<DiskModel> {
    disks.map_values(|d: Disk| d@).to_multiset()
}

proof fn lemma_bag_insert(disks: Seq<Disk>, at: int, d: Disk)
    requires
        0 <= at <= disks.len(),
    ensures
        disk_bag(disks.insert(at, d)) == disk_bag(disks).insert(d@),
{
    let views = disks.map_values(|x: Disk| x@);
    let after = disks.insert(at, d).map_values(|x: Disk| x@);
    assert(after =~= views.insert(at, d@));
    assert(after[at] == d@);
    assert(after.remove(at) =~= views);
    after.to_multiset_ensures();
    assert(after.contains(d@));
    assert(after.to_multiset() =~= views.to_multiset().insert(d@));
}

/// The devices that a table which may not have been read names.
fn devices_or_none(table: &Option<String>, from: usize) -> (r: Vec<String>)
    ensures
        texts(r@).to_set() == devices_of(text_model(*table), from as int),
{
    match table {
        Some(t) => device_paths(t.as_str(), from),
        None => {
            let r: Vec<String> = Vec::new();
            assert(texts(r@).to_set() =~= Set::empty());
            r
        },
    }
}

impl SysfsProvider {
    /// The disks among the block devices, in the order of their names, each with
    /// its lock. `mounts` and `swaps` are `/proc/mounts` and `/proc/swaps`, each
    /// if it could be read.
    pub fn refresh(
        &self,
        entries: &Vec<SysfsEntry>,
        mounts: &Option<String>,
        swaps: &Option<String>,
    ) -> (r: Vec<Disk>)
        requires
            forall|i: int|
                0 <= i < entries@.len() ==> sectors_of((#[trigger] entries@[i]).attributes) * 512
                    <= u64::MAX,
        ensures
            sorted_by_name(r@),
            disk_bag(r@) == shown_disks(
                entries@,
                devices_of(text_model(*mounts), 0),
                devices_of(text_model(*swaps), 1),
            ),
    {
        let mounted = devices_or_none(mounts, 0);
        let swapped = devices_or_none(swaps, 1);
        let ghost ms = devices_of(text_model(*mounts), 0);
        let ghost ss = devices_of(text_model(*swaps), 1);
        let mut r: Vec<Disk> = Vec::new();
        let mut i: usize = 0;
        proof {
            r@.map_values(|d: Disk| d@).to_multiset_ensures();
            assert(disk_bag(r@) =~= Multiset::empty());
            assert(entries@.take(0) =~= Seq::<SysfsEntry>::empty());
        }
        while i < entries.len()
            invariant
                i <= entries@.len(),
                forall|k: int|
                    0 <= k < entries@.len() ==> sectors_of((#[trigger] entries@[k]).attributes)
                        * 512 <= u64::MAX,
                texts(mounted@).to_set() == ms,
                texts(swapped@).to_set() == ss,
                sorted_by_name(r@),
                disk_bag(r@) == shown_disks(entries@.take(i as int), ms, ss),
            decreases entries@.len() - i,
        {
            let e = &entries[i];
            let boot = match &e.descriptor {
                Some(d) => d.len() == 2048 && is_scour_boot_medium(d.as_slice()),
                None => false,
            };
            let path = device_path(e.name.as_str());
            let lock = detect_lock(path.as_str(), &mounted, &swapped, e.has_holders, boot);
            proof {
                let next = entries@.take(i + 1);
                assert(next.drop_last() =~= entries@.take(i as int));
                assert(next.last() == *e);
            }
            match disk_from_sysfs(e.name.as_str(), &e.attributes, lock) {
                Some(d) => {
                    let ghost before = r@;
                    let ghost disk = d;
                    let at: usize = insert_sorted(&mut r, d);
                    proof {
                        lemma_bag_insert(before, at as int, disk);
                    }
                },
                None => {},
            }
            i += 1;
        }
        assert(entries@.take(i as int) =~= entries@);
        r
    }
}

} // verus!
