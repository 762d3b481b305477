//! What the files of the kernel mean: which disks there are, and which of them are
//! in use.

use vstd::prelude::*;

use crate::device::{Bus, DiskModel, LockReason, MediaKind};
use crate::linux::{
    any_belongs, attribute_number, belongs, bus_of, devices_of, entry_disk, is_boot_descriptor,
    is_boot_label_spec, is_pseudo, is_shown, law_partitions_belong, lock_of, lossy_text, names_device,
    names_device_in, sectors_of, shown_disks, sysfs_disk, SysfsAttributes, SysfsEntry,
};
use crate::scan::{
    all_digits, first_word_of, holds, index_of, is_white, lemma_value_nonnegative, lines_of, trimmed, trimmed_end,
    trimmed_start, without_cr, word_len,
};
use crate::text::dec_value;

verus! {

/// Whether a text is nothing but white space.
pub open spec fn all_white(s: Seq<char>) -> bool {
    forall|i: int| 0 <= i < s.len() ==> is_white(#[trigger] s[i])
}

/// Whether a text neither is empty nor begins or ends with white space.
pub open spec fn is_bare(s: Seq<char>) -> bool {
    s.len() > 0 && !is_white(s[0]) && !is_white(s.last())
}

/// Whether a text is the number `n` in decimal digits.
pub open spec fn is_decimal(d: Seq<char>, n: nat) -> bool {
    &&& d.len() > 0
    &&& forall|i: int| 0 <= i < d.len() ==> '0' <= #[trigger] d[i] <= '9'
    &&& dec_value(d) == n
}

/// Whether a text is the number `n` in decimal digits, with a plus sign or none.
pub open spec fn reads_as(s: Seq<char>, n: nat) -> bool {
    is_decimal(
        if s.len() > 0 && s[0] == '+' {
            s.skip(1)
        } else {
            s
        },
        n,
    )
}

/// Whether a text is the number `n` with nothing but white space around it.
pub open spec fn spells(text: Seq<char>, n: nat) -> bool {
    exists|lead: Seq<char>, digits: Seq<char>, trail: Seq<char>|
        #![trigger lead + digits + trail]
        text == lead + digits + trail && all_white(lead) && all_white(trail) && reads_as(digits, n)
}

proof fn lemma_start_trimmed(lead: Seq<char>, rest: Seq<char>)
    requires
        all_white(lead),
        rest.len() > 0 ==> !is_white(rest[0]),
    ensures
        trimmed_start(lead + rest) == rest,
    decreases lead.len(),
{
    let s = lead + rest;
    if lead.len() > 0 {
        assert(s[0] == lead[0]);
        assert(s.skip(1) =~= lead.skip(1) + rest);
        lemma_start_trimmed(lead.skip(1), rest);
    } else {
        assert(s =~= rest);
    }
}

proof fn lemma_end_trimmed(rest: Seq<char>, trail: Seq<char>)
    requires
        all_white(trail),
        rest.len() > 0 ==> !is_white(rest.last()),
    ensures
        trimmed_end(rest + trail) == rest,
    decreases trail.len(),
{
    let s = rest + trail;
    if trail.len() > 0 {
        assert(s.last() == trail.last());
        assert(s.drop_last() =~= rest + trail.drop_last());
        lemma_end_trimmed(rest, trail.drop_last());
    } else {
        assert(s =~= rest);
    }
}

/// Trimming takes off the white space around a text, and nothing else.
pub proof fn law_trimming_finds_what_is_between(lead: Seq<char>, bare: Seq<char>, trail: Seq<char>)
    requires
        all_white(lead),
        all_white(trail),
        is_bare(bare),
    ensures
        trimmed(lead + bare + trail) == bare,
{
    assert(lead + bare + trail =~= lead + (bare + trail));
    assert((bare + trail)[0] == bare[0]);
    lemma_start_trimmed(lead, bare + trail);
    lemma_end_trimmed(bare, trail);
}

proof fn lemma_start_split(s: Seq<char>) -> (lead: Seq<char>)
    ensures
        all_white(lead),
        s == lead + trimmed_start(s),
        trimmed_start(s).len() > 0 ==> !is_white(trimmed_start(s)[0]),
    decreases s.len(),
{
    if s.len() > 0 && is_white(s[0]) {
        let less = lemma_start_split(s.skip(1));
        let lead = seq![s[0]] + less;
        assert(s =~= lead + trimmed_start(s)) by {
            assert(s =~= seq![s[0]] + s.skip(1));
        }
        lead
    } else {
        let lead = Seq::<char>::empty();
        assert(s =~= lead + trimmed_start(s));
        lead
    }
}

proof fn lemma_end_split(s: Seq<char>) -> (trail: Seq<char>)
    ensures
        all_white(trail),
        s == trimmed_end(s) + trail,
        trimmed_end(s).len() > 0 ==> !is_white(trimmed_end(s).last()),
        s.len() > 0 && trimmed_end(s).len() > 0 ==> trimmed_end(s)[0] == s[0],
    decreases s.len(),
{
    if s.len() > 0 && is_white(s.last()) {
        let less = lemma_end_split(s.drop_last());
        let trail = less + seq![s.last()];
        assert(s =~= trimmed_end(s) + trail) by {
            assert(s =~= s.drop_last() + seq![s.last()]);
        }
        trail
    } else {
        let trail = Seq::<char>::empty();
        assert(s =~= trimmed_end(s) + trail);
        trail
    }
}

/// Every text is what trimming leaves of it, with white space around it.
pub proof fn law_trimming_loses_only_white_space(s: Seq<char>) -> (r: (Seq<char>, Seq<char>))
    ensures
        all_white(r.0),
        all_white(r.1),
        s == r.0 + trimmed(s) + r.1,
        trimmed(s).len() > 0 ==> is_bare(trimmed(s)),
{
    let lead = lemma_start_split(s);
    let trail = lemma_end_split(trimmed_start(s));
    assert(s =~= lead + trimmed(s) + trail);
    (lead, trail)
}

/// An attribute file gives a number exactly if its text is that number with
/// nothing but white space around it.
pub proof fn law_attribute_number_is_what_it_spells(text: Seq<char>, n: u64)
    ensures
        attribute_number(Some(text)) == Some(n) <==> spells(text, n as nat),
{
    if spells(text, n as nat) {
        let (lead, digits, trail) = choose|lead: Seq<char>, digits: Seq<char>, trail: Seq<char>|
            #![trigger lead + digits + trail]
            text == lead + digits + trail && all_white(lead) && all_white(trail) && reads_as(
                digits,
                n as nat,
            );
        lemma_number_is_bare(digits, n as nat);
        law_trimming_finds_what_is_between(lead, digits, trail);
    }
    if attribute_number(Some(text)) == Some(n) {
        let (lead, trail) = law_trimming_loses_only_white_space(text);
        let digits = trimmed(text);
        let d = if digits[0] == '+' {
            digits.skip(1)
        } else {
            digits
        };
        lemma_value_nonnegative(d, d.len() as int);
        assert(d.take(d.len() as int) =~= d);
        assert(reads_as(digits, n as nat));
        assert(text == lead + digits + trail);
    }
}

proof fn lemma_number_is_bare(digits: Seq<char>, n: nat)
    requires
        reads_as(digits, n),
    ensures
        is_bare(digits),
{
    let d = if digits[0] == '+' {
        digits.skip(1)
    } else {
        digits
    };
    assert(d.last() == digits.last());
    assert('0' <= d[d.len() - 1] <= '9');
    assert(digits[0] == '+' || digits[0] == d[0]);
}

/// A disk is listed as rotating exactly if its attribute `rotational` is the number
/// one, and as removable exactly if its attribute `removable` is; an attribute that
/// says anything else, or cannot be read, makes it neither.
pub proof fn law_flags_are_the_number_one(
    name: Seq<char>,
    a: SysfsAttributes,
    lock: Option<LockReason>,
)
    ensures
        sysfs_disk(name, a, lock).kind == MediaKind::Hdd <==> (a.rotational matches Some(t) && spells(
            t@,
            1,
        )),
        sysfs_disk(name, a, lock).kind == MediaKind::Ssd <==> !(a.rotational matches Some(t) && spells(
            t@,
            1,
        )),
        sysfs_disk(name, a, lock).removable <==> (a.removable matches Some(t) && spells(t@, 1)),
{
    if let Some(t) = a.rotational {
        law_attribute_number_is_what_it_spells(t@, 1);
    }
    if let Some(t) = a.removable {
        law_attribute_number_is_what_it_spells(t@, 1);
    }
}

/// No text spells two numbers: what is written as one number is not read as
/// another.
pub proof fn law_a_text_spells_one_number(text: Seq<char>, m: u64, n: u64)
    requires
        spells(text, m as nat),
        spells(text, n as nat),
    ensures
        m == n,
{
    law_attribute_number_is_what_it_spells(text, m);
    law_attribute_number_is_what_it_spells(text, n);
}

/// The size of a disk is 512 bytes per sector that its attribute `size` counts; a
/// device is shown exactly if it is no pseudo device and counts at least one.
pub proof fn law_size_counts_sectors(e: SysfsEntry, lock: Option<LockReason>, n: u64)
    requires
        e.attributes.size matches Some(t) && spells(t@, n as nat),
        n * 512 <= u64::MAX,
    ensures
        sysfs_disk(e.name@, e.attributes, lock).size_bytes == 512 * n,
        is_shown(e) <==> !is_pseudo(e.name@) && n > 0,
{
    law_attribute_number_is_what_it_spells(e.attributes.size->0@, n);
}

/// A device whose size cannot be read, or is no number, is not shown.
pub proof fn law_no_size_no_disk(e: SysfsEntry)
    ensures
        is_shown(e) ==> (e.attributes.size matches Some(t) && exists|n: u64|
            n > 0 && #[trigger] spells(t@, n as nat)),
{
    if is_shown(e) {
        let n = sectors_of(e.attributes);
        law_attribute_number_is_what_it_spells(e.attributes.size->0@, n);
        assert(spells(e.attributes.size->0@, n as nat));
    }
}

/// A disk goes by its kernel name, is opened below `/dev/`, and is real and not
/// slowed down; it carries the lock that was found for it.
pub proof fn law_disks_of_the_machine_are_real(
    name: Seq<char>,
    a: SysfsAttributes,
    lock: Option<LockReason>,
)
    ensures
        ({
            let d = sysfs_disk(name, a, lock);
            &&& d.name == name
            &&& d.path == "/dev/"@ + name
            &&& !d.simulated
            &&& d.throttle_bps is None
            &&& d.lock == lock
        }),
{
}

/// The model of a disk is what its attribute says between the white space; its
/// serial number is that of its attribute `serial`, or else its WWID.
pub proof fn law_model_and_serial_are_told(
    name: Seq<char>,
    a: SysfsAttributes,
    lock: Option<LockReason>,
    lead: Seq<char>,
    bare: Seq<char>,
    trail: Seq<char>,
)
    requires
        all_white(lead),
        all_white(trail),
        is_bare(bare),
    ensures
        ({
            let d = sysfs_disk(name, a, lock);
            let text = lead + bare + trail;
            &&& (a.model matches Some(t) && t@ == text) ==> d.model == bare
            &&& a.model is None ==> d.model == "unknown model"@
            &&& (a.serial matches Some(t) && t@ == text) ==> d.serial == bare
            &&& a.serial is None && (a.wwid matches Some(t) && t@ == text) ==> d.serial == bare
            &&& a.serial is None && a.wwid is None ==> d.serial == "—"@
        }),
{
    law_trimming_finds_what_is_between(lead, bare, trail);
}

/// The reason of a lock is true: mounted if something on the disk is mounted, active
/// swap only if something on it is swapped on, in use only if the kernel holds it,
/// boot medium only if it is that; and a mounted disk is never offered.
pub proof fn law_lock_reason_is_true(
    base: Seq<char>,
    mounted: Set<Seq<char>>,
    swaps: Set<Seq<char>>,
    has_holders: bool,
    is_boot_medium: bool,
)
    ensures
        ({
            let lock = lock_of(base, mounted, swaps, has_holders, is_boot_medium);
            let m = exists|d: Seq<char>| #[trigger] mounted.contains(d) && belongs(d, base);
            let s = exists|d: Seq<char>| #[trigger] swaps.contains(d) && belongs(d, base);
            &&& lock == Some(LockReason::Mounted) <==> m
            &&& lock == Some(LockReason::SwapActive) <==> !m && s
            &&& lock == Some(LockReason::InUse) <==> !m && !s && has_holders
            &&& lock == Some(LockReason::BootMedium) <==> !m && !s && !has_holders && is_boot_medium
        }),
{
}

/// Whether a text holds no line feed.
spec fn one_line(s: Seq<char>) -> bool {
    forall|i: int| 0 <= i < s.len() ==> #[trigger] s[i] != '\n'
}

proof fn lemma_index_in(s: Seq<char>, c: char, k: int)
    requires
        0 <= k < s.len(),
        s[k] == c,
        forall|i: int| 0 <= i < k ==> s[i] != c,
    ensures
        index_of(s, c) == k,
    decreases k,
{
    if k > 0 {
        assert(s.skip(1)[k - 1] == c);
        assert forall|i: int| 0 <= i < k - 1 implies s.skip(1)[i] != c by {
            assert(s[i + 1] != c);
        }
        lemma_index_in(s.skip(1), c, k - 1);
    }
}

proof fn lemma_index_out(s: Seq<char>, c: char)
    requires
        forall|i: int| 0 <= i < s.len() ==> s[i] != c,
    ensures
        index_of(s, c) == s.len(),
    decreases s.len(),
{
    if s.len() > 0 {
        assert forall|i: int| 0 <= i < s.len() - 1 implies s.skip(1)[i] != c by {
            assert(s[i + 1] != c);
        }
        lemma_index_out(s.skip(1), c);
    }
}

proof fn lemma_index_found(s: Seq<char>, c: char)
    ensures
        index_of(s, c) <= s.len(),
        index_of(s, c) < s.len() ==> s[index_of(s, c) as int] == c,
        forall|i: int| 0 <= i < index_of(s, c) ==> s[i] != c,
    decreases s.len(),
{
    if s.len() > 0 && s[0] != c {
        lemma_index_found(s.skip(1), c);
        assert forall|i: int| 0 <= i < index_of(s, c) implies s[i] != c by {
            if i > 0 {
                assert(s.skip(1)[i - 1] == s[i]);
            }
        }
    }
}

/// Whether a text ends where a line does: it is empty, or ends in a line feed.
pub open spec fn ends_a_line(s: Seq<char>) -> bool {
    s.len() > 0 ==> s.last() == '\n'
}

/// Whether a text begins where a line ends: it is empty, or begins with a line
/// feed.
pub open spec fn begins_behind_a_line(s: Seq<char>) -> bool {
    s.len() > 0 ==> s[0] == '\n'
}

/// A line of a text is found among its lines, behind the first of them where
/// something comes before it.
proof fn lemma_line_found(before: Seq<char>, line: Seq<char>, behind: Seq<char>) -> (i: int)
    requires
        ends_a_line(before),
        one_line(line),
        line.len() > 0,
        begins_behind_a_line(behind),
    ensures
        0 <= i < lines_of(before + line + behind).len(),
        before.len() > 0 ==> i >= 1,
        lines_of(before + line + behind)[i] == line || lines_of(before + line + behind)[i]
            == without_cr(line),
    decreases before.len(),
{
    let s = before + line + behind;
    let k = index_of(s, '\n');
    lemma_index_found(s, '\n');
    if before.len() == 0 {
        assert(s =~= line + behind);
        assert forall|i: int| 0 <= i < line.len() implies s[i] != '\n' by {
            assert(s[i] == line[i]);
        }
        if behind.len() > 0 {
            assert(s[line.len() as int] == behind[0]);
            lemma_index_in(s, '\n', line.len() as int);
            assert(s.take(k as int) =~= line);
        } else {
            assert(s =~= line);
            lemma_index_out(s, '\n');
        }
        0
    } else {
        let at = before.len() - 1;
        assert(s[at] == before.last());
        assert(k <= at);
        let rest = before.skip(k as int + 1);
        assert(s.skip(k as int + 1) =~= rest + line + behind);
        if rest.len() > 0 {
            assert(rest.last() == before.last());
        }
        let j = lemma_line_found(rest, line, behind);
        let all = lines_of(s);
        assert(all == seq![without_cr(s.take(k as int))] + lines_of(s.skip(k as int + 1)));
        assert(all[j + 1] == lines_of(s.skip(k as int + 1))[j]);
        j + 1
    }
}

proof fn lemma_word_len(word: Seq<char>, more: Seq<char>)
    requires
        forall|i: int| 0 <= i < word.len() ==> !is_white(#[trigger] word[i]),
        more.len() > 0 ==> is_white(more[0]),
    ensures
        word_len(word + more) == word.len(),
    decreases word.len(),
{
    let s = word + more;
    if word.len() > 0 {
        assert(s[0] == word[0]);
        assert(s.skip(1) =~= word.skip(1) + more);
        assert forall|i: int| 0 <= i < word.len() - 1 implies !is_white(
            #[trigger] word.skip(1)[i],
        ) by {
            assert(word[i + 1] == word.skip(1)[i]);
        }
        lemma_word_len(word.skip(1), more);
    } else {
        assert(s =~= more);
    }
}

proof fn lemma_first_word(word: Seq<char>, more: Seq<char>)
    requires
        word.len() > 0,
        forall|i: int| 0 <= i < word.len() ==> !is_white(#[trigger] word[i]),
        more.len() > 0 ==> is_white(more[0]),
    ensures
        first_word_of(word + more) == Some(word),
{
    let s = word + more;
    assert(s[0] == word[0]);
    assert(trimmed_start(s) == s);
    lemma_word_len(word, more);
    assert(s.take(word.len() as int) =~= word);
}

/// Whether a table has a line that begins with `dev`, followed by white space or
/// nothing, behind `before`.
pub open spec fn has_row(
    table: Seq<char>,
    before: Seq<char>,
    dev: Seq<char>,
    more: Seq<char>,
    behind: Seq<char>,
) -> bool {
    &&& table == before + (dev + more) + behind
    &&& ends_a_line(before)
    &&& begins_behind_a_line(behind)
    &&& forall|i: int| 0 <= i < more.len() ==> #[trigger] more[i] != '\n'
    &&& more.len() > 0 ==> is_white(more[0])
    &&& forall|i: int| 0 <= i < dev.len() ==> !is_white(#[trigger] dev[i])
}

proof fn lemma_row_found(
    table: Seq<char>,
    before: Seq<char>,
    dev: Seq<char>,
    more: Seq<char>,
    behind: Seq<char>,
    from: int,
)
    requires
        has_row(table, before, dev, more, behind),
        "/dev/"@.is_prefix_of(dev),
        from == 0 || (from == 1 && before.len() > 0),
    ensures
        devices_of(Some(table), from).contains(dev),
{
    reveal_strlit("/dev/");
    let line = dev + more;
    assert forall|i: int| 0 <= i < line.len() implies #[trigger] line[i] != '\n' by {
        if i < dev.len() {
            assert(!is_white(dev[i]));
            assert(is_white('\n'));
        } else {
            assert(line[i] == more[i - dev.len()]);
        }
    }
    let i = lemma_line_found(before, line, behind);
    let all = lines_of(table);
    let less = if more.len() > 0 {
        more.drop_last()
    } else {
        more
    };
    if all[i] == line {
        lemma_first_word(dev, more);
    } else {
        assert(line.last() == '\r');
        if more.len() == 0 {
            assert(line =~= dev);
            assert(is_white('\r'));
            assert(!is_white(dev[dev.len() - 1]));
        }
        assert(line.drop_last() =~= dev + less);
        if less.len() > 0 {
            assert(less[0] == more[0]);
        }
        lemma_first_word(dev, less);
    }
    assert(names_device(all, i, dev));
    assert(names_device_in(all, from, all.len() as int, dev));
}

/// A disk of which a mount table names the device itself or a numbered partition is
/// locked as mounted, wherever in the table that line stands and whatever it says
/// behind the device.
pub proof fn law_mounted_disk_is_locked(
    e: SysfsEntry,
    mounts: Seq<char>,
    swaps: Set<Seq<char>>,
    before: Seq<char>,
    number: Seq<char>,
    more: Seq<char>,
    behind: Seq<char>,
)
    requires
        forall|i: int| 0 <= i < e.name@.len() ==> !is_white(#[trigger] e.name@[i]),
        e.name@.len() > 0,
        number.len() == 0 || all_digits(number),
        has_row(mounts, before, partition_of(e.name@, number), more, behind),
    ensures
        entry_disk(e, devices_of(Some(mounts), 0), swaps).lock == Some(LockReason::Mounted),
{
    let base = "/dev/"@ + e.name@;
    let dev = partition_of(e.name@, number);
    lemma_partition(e.name@, number);
    lemma_row_found(mounts, before, dev, more, behind, 0);
    assert(any_belongs(devices_of(Some(mounts), 0), base));
}

/// A disk of which a swap table names the device itself or a numbered partition,
/// behind the heading, is locked.
pub proof fn law_swapped_disk_is_locked(
    e: SysfsEntry,
    mounted: Set<Seq<char>>,
    swaps: Seq<char>,
    before: Seq<char>,
    number: Seq<char>,
    more: Seq<char>,
    behind: Seq<char>,
)
    requires
        forall|i: int| 0 <= i < e.name@.len() ==> !is_white(#[trigger] e.name@[i]),
        e.name@.len() > 0,
        number.len() == 0 || all_digits(number),
        before.len() > 0,
        has_row(swaps, before, partition_of(e.name@, number), more, behind),
    ensures
        entry_disk(e, mounted, devices_of(Some(swaps), 1)).lock is Some,
{
    let base = "/dev/"@ + e.name@;
    let dev = partition_of(e.name@, number);
    lemma_partition(e.name@, number);
    lemma_row_found(swaps, before, dev, more, behind, 1);
    assert(any_belongs(devices_of(Some(swaps), 1), base));
}

/// A disk that the kernel holds, and one whose 2048 bytes at the place of a volume
/// descriptor are those of the live system, is locked.
pub proof fn law_held_and_boot_disks_are_locked(
    e: SysfsEntry,
    mounted: Set<Seq<char>>,
    swaps: Set<Seq<char>>,
)
    ensures
        e.has_holders ==> entry_disk(e, mounted, swaps).lock is Some,
        (e.descriptor matches Some(d) && d@.len() == 2048 && is_boot_descriptor(d@)) ==> entry_disk(
            e,
            mounted,
            swaps,
        ).lock is Some,
{
}

/// The device of a disk, or of one of its partitions where there is a number: the
/// number comes behind the name, with a `p` before it where the name ends in a
/// digit.
pub open spec fn partition_of(name: Seq<char>, number: Seq<char>) -> Seq<char> {
    if number.len() == 0 {
        "/dev/"@ + name
    } else if '0' <= name.last() <= '9' {
        "/dev/"@ + name + seq!['p'] + number
    } else {
        "/dev/"@ + name + number
    }
}

proof fn lemma_partition(name: Seq<char>, number: Seq<char>)
    requires
        name.len() > 0,
        number.len() == 0 || all_digits(number),
    ensures
        belongs(partition_of(name, number), "/dev/"@ + name),
        "/dev/"@.is_prefix_of(partition_of(name, number)),
{
    let base = "/dev/"@ + name;
    let dev = partition_of(name, number);
    assert(base.last() == name.last());
    assert(dev.subrange(0, "/dev/"@.len() as int) =~= "/dev/"@);
    if number.len() > 0 {
        law_partitions_belong(base, number);
    }
}

/// Every device that is no pseudo device and has a size is listed, and nothing else
/// is: each disk in the list is such a device, with its lock.
pub proof fn law_every_disk_is_listed(
    entries: Seq<SysfsEntry>,
    mounted: Set<Seq<char>>,
    swaps: Set<Seq<char>>,
    d: DiskModel,
)
    ensures
        shown_disks(entries, mounted, swaps).count(d) > 0 <==> exists|i: int|
            0 <= i < entries.len() && !is_pseudo((#[trigger] entries[i]).name@) && sectors_of(
                entries[i].attributes,
            ) > 0 && entry_disk(entries[i], mounted, swaps) == d,
    decreases entries.len(),
{
    if entries.len() > 0 {
        let less = entries.drop_last();
        law_every_disk_is_listed(less, mounted, swaps, d);
        let last = entries.last();
        if shown_disks(less, mounted, swaps).count(d) > 0 {
            let i = choose|i: int|
                0 <= i < less.len() && !is_pseudo((#[trigger] less[i]).name@) && sectors_of(
                    less[i].attributes,
                ) > 0 && entry_disk(less[i], mounted, swaps) == d;
            assert(entries[i] == less[i]);
        }
        if is_shown(last) && entry_disk(last, mounted, swaps) == d {
            assert(entries[entries.len() - 1] == last);
        }
        if exists|i: int|
            0 <= i < entries.len() && !is_pseudo((#[trigger] entries[i]).name@) && sectors_of(
                entries[i].attributes,
            ) > 0 && entry_disk(entries[i], mounted, swaps) == d {
            let i = choose|i: int|
                0 <= i < entries.len() && !is_pseudo((#[trigger] entries[i]).name@) && sectors_of(
                    entries[i].attributes,
                ) > 0 && entry_disk(entries[i], mounted, swaps) == d;
            if i < less.len() {
                assert(less[i] == entries[i]);
            }
        }
    }
}

/// Disks on the usual buses are no pseudo devices, and loop devices, RAM disks,
/// mapped devices, arrays, optical and floppy drives and network devices are.
pub proof fn law_pseudo_devices_are_told_by_their_names(rest: Seq<char>)
    ensures
        !is_pseudo("sd"@ + rest),
        !is_pseudo("hd"@ + rest),
        !is_pseudo("vd"@ + rest),
        !is_pseudo("xvd"@ + rest),
        !is_pseudo("nvme"@ + rest),
        !is_pseudo("mmcblk"@ + rest),
        is_pseudo("loop"@ + rest),
        is_pseudo("ram"@ + rest),
        is_pseudo("zram"@ + rest),
        is_pseudo("dm-"@ + rest),
        is_pseudo("md"@ + rest),
        is_pseudo("sr"@ + rest),
        is_pseudo("fd"@ + rest),
        is_pseudo("nbd"@ + rest),
{
    lemma_reveal_names();
    lemma_not_pseudo("sd"@, rest);
    lemma_not_pseudo("hd"@, rest);
    lemma_not_pseudo("vd"@, rest);
    lemma_not_pseudo("xvd"@, rest);
    lemma_not_pseudo("nvme"@, rest);
    lemma_not_pseudo("mmcblk"@, rest);
    lemma_prefix("loop"@, rest);
    lemma_prefix("ram"@, rest);
    lemma_prefix("zram"@, rest);
    lemma_prefix("dm-"@, rest);
    lemma_prefix("md"@, rest);
    lemma_prefix("sr"@, rest);
    lemma_prefix("fd"@, rest);
    lemma_prefix("nbd"@, rest);
}

proof fn lemma_prefix(p: Seq<char>, rest: Seq<char>)
    ensures
        p.is_prefix_of(p + rest),
{
    assert((p + rest).subrange(0, p.len() as int) =~= p);
}

proof fn lemma_prefix_chars(p: Seq<char>, s: Seq<char>)
    requires
        p.is_prefix_of(s),
    ensures
        forall|i: int| 0 <= i < p.len() ==> #[trigger] s[i] == p[i],
{
    assert forall|i: int| 0 <= i < p.len() implies #[trigger] s[i] == p[i] by {
        assert(s.subrange(0, p.len() as int)[i] == s[i]);
    }
}

proof fn lemma_reveal_names()
    ensures
        "sd"@ == seq!['s', 'd'],
        "hd"@ == seq!['h', 'd'],
        "vd"@ == seq!['v', 'd'],
        "xvd"@ == seq!['x', 'v', 'd'],
        "nvme"@ == seq!['n', 'v', 'm', 'e'],
        "mmcblk"@ == seq!['m', 'm', 'c', 'b', 'l', 'k'],
        "loop"@ == seq!['l', 'o', 'o', 'p'],
        "ram"@ == seq!['r', 'a', 'm'],
        "zram"@ == seq!['z', 'r', 'a', 'm'],
        "dm-"@ == seq!['d', 'm', '-'],
        "md"@ == seq!['m', 'd'],
        "sr"@ == seq!['s', 'r'],
        "fd"@ == seq!['f', 'd'],
        "nbd"@ == seq!['n', 'b', 'd'],
{
    reveal_strlit("sd");
    reveal_strlit("hd");
    reveal_strlit("vd");
    reveal_strlit("xvd");
    reveal_strlit("nvme");
    reveal_strlit("mmcblk");
    reveal_strlit("loop");
    reveal_strlit("ram");
    reveal_strlit("zram");
    reveal_strlit("dm-");
    reveal_strlit("md");
    reveal_strlit("sr");
    reveal_strlit("fd");
    reveal_strlit("nbd");
    assert("sd"@ =~= seq!['s', 'd']);
    assert("hd"@ =~= seq!['h', 'd']);
    assert("vd"@ =~= seq!['v', 'd']);
    assert("xvd"@ =~= seq!['x', 'v', 'd']);
    assert("nvme"@ =~= seq!['n', 'v', 'm', 'e']);
    assert("mmcblk"@ =~= seq!['m', 'm', 'c', 'b', 'l', 'k']);
    assert("loop"@ =~= seq!['l', 'o', 'o', 'p']);
    assert("ram"@ =~= seq!['r', 'a', 'm']);
    assert("zram"@ =~= seq!['z', 'r', 'a', 'm']);
    assert("dm-"@ =~= seq!['d', 'm', '-']);
    assert("md"@ =~= seq!['m', 'd']);
    assert("sr"@ =~= seq!['s', 'r']);
    assert("fd"@ =~= seq!['f', 'd']);
    assert("nbd"@ =~= seq!['n', 'b', 'd']);
}

/// A name that differs from every pseudo prefix in its first two characters is none.
proof fn lemma_not_pseudo(p: Seq<char>, rest: Seq<char>)
    requires
        p.len() >= 2,
        p[0] == 's' && p[1] == 'd' || p[0] == 'h' || p[0] == 'v' || p[0] == 'x' || (p[0] == 'n' && p[1]
            == 'v') || (p[0] == 'm' && p[1] == 'm'),
    ensures
        !is_pseudo(p + rest),
{
    lemma_reveal_names();
    let s = p + rest;
    assert(s[0] == p[0] && s[1] == p[1]);
    if is_pseudo(s) {
        if "loop"@.is_prefix_of(s) {
            lemma_prefix_chars("loop"@, s);
            assert(s[0] == 'l');
        }
        if "ram"@.is_prefix_of(s) {
            lemma_prefix_chars("ram"@, s);
            assert(s[0] == 'r');
        }
        if "zram"@.is_prefix_of(s) {
            lemma_prefix_chars("zram"@, s);
            assert(s[0] == 'z');
        }
        if "dm-"@.is_prefix_of(s) {
            lemma_prefix_chars("dm-"@, s);
            assert(s[0] == 'd');
        }
        if "md"@.is_prefix_of(s) {
            lemma_prefix_chars("md"@, s);
            assert(s[1] == 'd' && s[0] == 'm');
        }
        if "sr"@.is_prefix_of(s) {
            lemma_prefix_chars("sr"@, s);
            assert(s[1] == 'r' && s[0] == 's');
        }
        if "fd"@.is_prefix_of(s) {
            lemma_prefix_chars("fd"@, s);
            assert(s[0] == 'f');
        }
        if "nbd"@.is_prefix_of(s) {
            lemma_prefix_chars("nbd"@, s);
            assert(s[1] == 'b' && s[0] == 'n');
        }
    }
}

/// A volume label is that of the live system exactly if it begins with `SCOUR`
/// behind white space, in capitals.
pub proof fn law_boot_label_begins_with_the_name(lead: Seq<char>, rest: Seq<char>)
    requires
        all_white(lead),
        rest.len() > 0 ==> !is_white(rest[0]),
    ensures
        is_boot_label_spec(lead + rest) <==> rest.len() >= 5 && rest[0] == 'S' && rest[1] == 'C'
            && rest[2] == 'O' && rest[3] == 'U' && rest[4] == 'R',
{
    reveal_strlit("SCOUR");
    lemma_start_trimmed(lead, rest);
    let p = crate::linux::BOOT_LABEL_PREFIX@;
    assert(p =~= seq!['S', 'C', 'O', 'U', 'R']);
    if p.is_prefix_of(rest) {
        lemma_prefix_chars(p, rest);
        assert(rest[0] == p[0] && rest[1] == p[1] && rest[2] == p[2] && rest[3] == p[3] && rest[4]
            == p[4]);
    }
    if rest.len() >= 5 && rest[0] == 'S' && rest[1] == 'C' && rest[2] == 'O' && rest[3] == 'U'
        && rest[4] == 'R' {
        assert(rest.subrange(0, 5) =~= p);
    }
}

/// A medium is the live system's exactly if it carries a primary volume descriptor
/// (type 1, `CD001`) with the label of the live system in its bytes 40 to 71.
pub proof fn law_boot_medium_is_told_by_its_descriptor(d: Seq<u8>)
    requires
        d.len() == 2048,
    ensures
        is_boot_descriptor(d) <==> d.subrange(0, 6) == seq![1u8, 67u8, 68u8, 48u8, 48u8, 49u8]
            && is_boot_label_spec(lossy_text(d.subrange(40, 72))),
{
    let head = d.subrange(0, 6);
    let want = seq![1u8, 67u8, 68u8, 48u8, 48u8, 49u8];
    assert(head[0] == d[0] && head[1] == d[1] && head[2] == d[2] && head[3] == d[3] && head[4] == d[4]
        && head[5] == d[5]);
    if is_boot_descriptor(d) {
        assert(head =~= want);
    }
    if head == want {
        assert(head[0] == want[0] && head[1] == want[1] && head[2] == want[2] && head[3] == want[3]
            && head[4] == want[4] && head[5] == want[5]);
    }
}

/// The bus of a disk follows from its name, and else from where its link leads: USB
/// before VirtIO before ATA, and unknown where none of them is on the way.
pub proof fn law_bus_is_told_by_name_and_link(rest: Seq<char>, name: Seq<char>, link: Seq<char>)
    requires
        !"nvme"@.is_prefix_of(name),
        !"mmcblk"@.is_prefix_of(name),
        !"vd"@.is_prefix_of(name),
    ensures
        bus_of("nvme"@ + rest, Some(link)) == Bus::Nvme && bus_of("nvme"@ + rest, None) == Bus::Nvme,
        bus_of("mmcblk"@ + rest, Some(link)) == Bus::Mmc && bus_of("mmcblk"@ + rest, None) == Bus::Mmc,
        bus_of("vd"@ + rest, Some(link)) == Bus::Virtio && bus_of("vd"@ + rest, None) == Bus::Virtio,
        bus_of(name, None) == Bus::Unknown,
        bus_of(name, Some(link)) == Bus::Usb <==> holds(link, "/usb"@),
        bus_of(name, Some(link)) == Bus::Virtio <==> !holds(link, "/usb"@) && holds(
            link,
            "/virtio"@,
        ),
        bus_of(name, Some(link)) == Bus::Sata <==> !holds(link, "/usb"@) && !holds(
            link,
            "/virtio"@,
        ) && holds(link, "/ata"@),
        !holds(link, "/usb"@) && !holds(link, "/virtio"@) && !holds(link, "/ata"@) ==> bus_of(
            name,
            Some(link),
        ) == Bus::Unknown,
{
    lemma_reveal_names();
    lemma_prefix("nvme"@, rest);
    lemma_prefix("mmcblk"@, rest);
    lemma_prefix("vd"@, rest);
    let m = "mmcblk"@ + rest;
    let v = "vd"@ + rest;
    assert(m[0] == 'm' && v[0] == 'v');
    if "nvme"@.is_prefix_of(m) {
        lemma_prefix_chars("nvme"@, m);
        assert(m[0] == 'n');
    }
    if "nvme"@.is_prefix_of(v) {
        lemma_prefix_chars("nvme"@, v);
        assert(v[0] == 'n');
    }
    if "mmcblk"@.is_prefix_of(v) {
        lemma_prefix_chars("mmcblk"@, v);
        assert(v[0] == 'm');
    }
}

/// Names are ordered by their first difference: a name that goes on where another
/// ends comes behind it, and otherwise the smaller character comes first. Of two
/// different names only one comes first.
pub proof fn law_names_are_ordered(common: Seq<char>, a: Seq<char>, b: Seq<char>)
    requires
        a.len() > 0 && b.len() > 0 ==> a[0] != b[0],
        a.len() > 0 || b.len() > 0,
    ensures
        crate::linux::text_le(common + a, common + b) <==> a.len() == 0 || (b.len() > 0 && a[0] < b[0]),
    decreases common.len(),
{
    let x = common + a;
    let y = common + b;
    if common.len() > 0 {
        assert(x[0] == common[0] && y[0] == common[0]);
        assert(x.skip(1) =~= common.skip(1) + a);
        assert(y.skip(1) =~= common.skip(1) + b);
        law_names_are_ordered(common.skip(1), a, b);
    } else {
        assert(x =~= a);
        assert(y =~= b);
    }
}

/// The first line of a text is its first line.
proof fn lemma_first_line(row: Seq<char>, behind: Seq<char>)
    requires
        one_line(row),
        row.len() > 0,
        row.last() != '\r',
        begins_behind_a_line(behind),
    ensures
        lines_of(row + behind).len() > 0,
        lines_of(row + behind)[0] == row,
{
    let s = row + behind;
    assert forall|i: int| 0 <= i < row.len() implies s[i] != '\n' by {
        assert(s[i] == row[i]);
    }
    if behind.len() > 0 {
        assert(s[row.len() as int] == '\n');
        lemma_index_in(s, '\n', row.len() as int);
        assert(s.take(row.len() as int) =~= row);
    } else {
        assert(s =~= row);
        lemma_index_out(row, '\n');
    }
}

/// A number with its unit, behind white space, is read without both.
proof fn lemma_kib(lead: Seq<char>, digits: Seq<char>, n: u64)
    requires
        all_white(lead),
        is_decimal(digits, n as nat),
    ensures
        crate::sysinfo::kib_of(lead + digits + " kB"@) == Some(n),
{
    reveal_strlit(" kB");
    let tail = " kB"@;
    let none = Seq::<char>::empty();
    let both = digits + tail;
    let last = digits.len() - 1;
    assert('0' <= digits[0] <= '9' && '0' <= digits[last] <= '9');
    assert(both[0] == digits[0]);
    assert(both.last() == 'B');
    law_trimming_finds_what_is_between(lead, both, none);
    assert(lead + both + none =~= lead + digits + tail);
    assert(both.skip(digits.len() as int) =~= tail);
    assert(both.take(digits.len() as int) =~= digits);
    if tail.len() <= digits.len() && digits.skip(digits.len() - tail.len()) == tail {
        assert(digits.skip(digits.len() - tail.len())[2] == digits[last]);
        assert(tail[2] == 'B');
    }
    assert(crate::scan::trimmed_suffix(digits, tail) == digits);
    assert(crate::scan::trimmed_suffix(both, tail) == digits);
    law_trimming_finds_what_is_between(none, digits, none);
    assert(none + digits + none =~= digits);
}

/// The memory size is that of the line `MemTotal:`, which counts in units of 1024
/// bytes, whatever follows it.
pub proof fn law_memory_is_told_in_kibibytes(
    lead: Seq<char>,
    digits: Seq<char>,
    behind: Seq<char>,
    n: u64,
    cpu_cores: usize,
)
    requires
        all_white(lead),
        forall|i: int| 0 <= i < lead.len() ==> #[trigger] lead[i] != '\n',
        is_decimal(digits, n as nat),
        n * 1024 <= u64::MAX,
        begins_behind_a_line(behind),
    ensures
        ({
            let meminfo = "MemTotal:"@ + (lead + digits + " kB"@) + behind;
            crate::sysinfo::collected(cpu_cores, None, Some(meminfo), None).mem_total_bytes == 1024 * n
        }),
{
    reveal_strlit("MemTotal:");
    reveal_strlit(" kB");
    let head = "MemTotal:"@;
    let tail = " kB"@;
    let rest = lead + digits + tail;
    let row = head + rest;
    assert forall|i: int| 0 <= i < row.len() implies #[trigger] row[i] != '\n' by {
        if i < head.len() {
            assert(row[i] == head[i]);
        } else {
            let j = i - head.len();
            assert(row[i] == rest[j]);
            if j < lead.len() {
                assert(rest[j] == lead[j]);
            } else if j < lead.len() + digits.len() {
                assert(rest[j] == digits[j - lead.len()]);
            } else {
                assert(rest[j] == tail[j - lead.len() - digits.len()]);
            }
        }
    }
    assert(row.last() == 'B');
    lemma_first_line(row, behind);
    lemma_kib(lead, digits, n);
    assert(row.subrange(0, head.len() as int) =~= head);
    assert(row.skip(head.len() as int) =~= rest);
    assert(crate::sysinfo::mem_kib_in(lines_of(row + behind), 0) == Some(n));
}

/// The host goes by the processor that the first line `model name` tells behind its
/// colon, and by the kernel's release.
pub proof fn law_processor_is_told_behind_the_colon(
    lines: Seq<Seq<char>>,
    k: int,
    gap: Seq<char>,
    lead: Seq<char>,
    bare: Seq<char>,
    trail: Seq<char>,
)
    requires
        0 <= k < lines.len(),
        forall|j: int|
            0 <= j < k ==> !"model name"@.is_prefix_of(#[trigger] lines[j]) && !"Processor"@.is_prefix_of(
                lines[j],
            ),
        lines[k] == "model name"@ + gap + seq![':'] + lead + bare + trail,
        all_white(lead),
        all_white(trail),
        is_bare(bare),
        forall|i: int| 0 <= i < gap.len() ==> #[trigger] gap[i] != ':',
        forall|i: int| 0 <= i < bare.len() ==> #[trigger] bare[i] != ':',
    ensures
        crate::sysinfo::model_in(lines, 0) == Some(bare),
{
    lemma_model_found(lines, 0, k);
    reveal_strlit("model name");
    let head = "model name"@;
    let line = lines[k];
    assert(line.subrange(0, head.len() as int) =~= head);
    let at = head.len() + gap.len();
    assert forall|i: int| 0 <= i < at implies line[i] != ':' by {
        if i < head.len() {
            assert(line[i] == head[i]);
        } else {
            assert(line[i] == gap[i - head.len()]);
        }
    }
    assert(line[at as int] == ':');
    lemma_index_in(line, ':', at as int);
    let rest = lead + bare + trail;
    assert(line.skip(at as int + 1) =~= rest);
    assert forall|i: int| 0 <= i < rest.len() implies rest[i] != ':' by {
        if i < lead.len() {
            assert(is_white(lead[i]));
            assert(!is_white(':'));
        } else if i < lead.len() + bare.len() {
            assert(rest[i] == bare[i - lead.len()]);
        } else {
            assert(is_white(trail[i - lead.len() - bare.len()]));
        }
    }
    lemma_index_out(rest, ':');
    assert(rest.take(rest.len() as int) =~= rest);
    law_trimming_finds_what_is_between(lead, bare, trail);
}

proof fn lemma_model_found(lines: Seq<Seq<char>>, i: int, k: int)
    requires
        0 <= i <= k < lines.len(),
        forall|j: int|
            0 <= j < k ==> !"model name"@.is_prefix_of(#[trigger] lines[j]) && !"Processor"@.is_prefix_of(
                lines[j],
            ),
    ensures
        crate::sysinfo::model_in(lines, i) == crate::sysinfo::model_in(lines, k),
    decreases k - i,
{
    if i < k {
        assert(!"model name"@.is_prefix_of(lines[i]));
        lemma_model_found(lines, i + 1, k);
    }
}

/// Of the ASCII characters, the blank, the tab, the line feed, the carriage return and
/// the other controls from 9 to 13 are white space, and no others.
pub proof fn law_ascii_white_space(c: char)
    requires
        c as u32 <= 127,
    ensures
        is_white(c) <==> c == ' ' || c == '\t' || c == '\n' || c == '\r' || c as u32 == 11 || c as u32 == 12,
{
}

/// A text holds another exactly if the other stands somewhere in it.
pub proof fn law_holding_is_standing_inside(s: Seq<char>, a: Seq<char>, p: Seq<char>, b: Seq<char>)
    ensures
        s == a + p + b ==> holds(s, p),
        holds(s, p) ==> exists|k: int|
            0 <= k <= s.len() - p.len() && #[trigger] s.subrange(k, k + p.len() as int) == p,
{
    if s == a + p + b {
        let k = a.len() as int;
        assert(s.skip(k).subrange(0, p.len() as int) =~= p);
        assert(p.is_prefix_of(s.skip(k)));
    }
    if holds(s, p) {
        let k = choose|k: int| 0 <= k <= s.len() && p.is_prefix_of(#[trigger] s.skip(k));
        assert(s.skip(k).subrange(0, p.len() as int) =~= s.subrange(k, k + p.len() as int));
        assert(s.subrange(k, k + p.len() as int) == p);
    }
}

} // verus!
