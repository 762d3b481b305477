//! What the screens tell the operator.

use vstd::prelude::*;

use crate::algorithm::{registry, VerifyMode};
use crate::app_model::{AppModel, MethodChoice};
use crate::choice_laws::law_targets_are_exactly_the_chosen_disks;
use crate::device::{Bus, DiskModel, LockReason, MediaKind};
use crate::engine::{JobStatus, Phase, ProgressModel, ReportModel};
use crate::safety::{GateModel, GateState};
use crate::text::dec;
use crate::theme::{is_fancy, is_safe_glyph, shown_text, GlyphModel};
use crate::ui::{
    cancel_modal_spec, confirm_spec, disk_columns, disk_state, disk_table_spec, doomed_line, eta_text,
    flash_selected, gate_lines, gauge_label, job_line_spec, left_aligned, panel_spec, report_line, report_lines,
    right_aligned, shortened, ssd_advice, Role,
};

verus! {

proof fn lemma_state_texts()
    ensures
        "mounted"@[0] == 'm',
        "active swap"@[0] == 'a',
        "boot medium"@[0] == 'b',
        "in use"@[0] == 'i',
        "ready"@[0] == 'r',
        "skip (n/a)"@[0] == 's',
        "WILL ERASE"@[0] == 'W',
{
    reveal_strlit("mounted");
    reveal_strlit("active swap");
    reveal_strlit("boot medium");
    reveal_strlit("in use");
    reveal_strlit("ready");
    reveal_strlit("skip (n/a)");
    reveal_strlit("WILL ERASE");
}

/// The disk table has a row for every disk, in their order, which tells its fate: it
/// says `WILL ERASE` exactly for the disks that a start would erase, names the reason
/// of a lock, and marks locked and selected disks. The cursor bar is on one row.
pub proof fn law_row_tells_the_fate(m: AppModel, g: GlyphModel, i: int)
    requires
        0 <= i < m.disks.len(),
    ensures
        ({
            let d = m.disks[i];
            let row = disk_table_spec(m, g)[i + 1];
            &&& disk_table_spec(m, g).len() == m.disks.len() + 1
            &&& row[4].text == "WILL ERASE"@ <==> m.targets().contains(d)
            &&& d.lock == Some(LockReason::Mounted) ==> row[4].text == "mounted"@
            &&& d.lock == Some(LockReason::SwapActive) ==> row[4].text == "active swap"@
            &&& d.lock == Some(LockReason::BootMedium) ==> row[4].text == "boot medium"@
            &&& d.lock == Some(LockReason::InUse) ==> row[4].text == "in use"@
            &&& d.lock is Some ==> row[1].text == g.locked
            &&& d.lock is None && m.selected.contains(d.name) ==> row[1].text == g.sel_on
            &&& d.lock is None && !m.selected.contains(d.name) ==> row[1].text == g.sel_off
                && row[4].text == "ready"@
            &&& row[0].role == Role::Accent <==> i == m.cursor
            &&& i == m.cursor ==> row[0].text == g.cursor
            &&& d.name.is_prefix_of(row[3].text)
        }),
{
    let d = m.disks[i];
    let row = disk_table_spec(m, g)[i + 1];
    lemma_state_texts();
    law_targets_are_exactly_the_chosen_disks(m, d);
    assert(m.disks.contains(d));
    assert(row[3].text.subrange(0, d.name.len() as int) =~= d.name);
    assert(row[4] == disk_state(m, d));
    if row[4].text == "WILL ERASE"@ {
        assert(row[4].text[0] == 'W');
    }
}

/// The columns of a disk stand where the heading says: its bus behind 51 characters
/// and its type behind 58, where its name and its size fit their columns.
pub proof fn law_columns_tell_bus_and_type(d: DiskModel)
    requires
        d.name.len() <= 11,
        crate::device::human(d.size_bytes as nat).len() <= 9,
    ensures
        disk_columns(d).len() == 64,
        d.kind == MediaKind::Ssd ==> disk_columns(d).subrange(58, 61) == "SSD"@,
        d.kind == MediaKind::Hdd ==> disk_columns(d).subrange(58, 61) == "HDD"@,
        d.bus == Bus::Nvme ==> disk_columns(d).subrange(51, 55) == "NVMe"@,
        d.bus == Bus::Sata ==> disk_columns(d).subrange(51, 55) == "SATA"@,
        d.bus == Bus::Usb ==> disk_columns(d).subrange(51, 54) == "USB"@,
{
    reveal_strlit("SSD");
    reveal_strlit("HDD");
    reveal_strlit("NVMe");
    reveal_strlit("SATA");
    reveal_strlit("USB");
    reveal_strlit("VirtIO");
    reveal_strlit("MMC");
    reveal_strlit("DEMO");
    reveal_strlit("?");
    reveal_strlit(" ");
    let size = crate::device::human(d.size_bytes as nat);
    let name = left_aligned(d.name, 11);
    let model = left_aligned(shortened(d.model, 28), 28);
    let bytes = right_aligned(size, 9);
    let bus = left_aligned(d.bus.label_spec(), 6);
    let kind = left_aligned(d.kind.label_spec(), 5);
    assert(name.len() == 11 && model.len() == 28 && bytes.len() == 9 && bus.len() == 6 && kind.len() == 5);
    let head = name + " "@ + model + " "@ + bytes + " "@;
    assert(head.len() == 51);
    let c = disk_columns(d);
    assert(c =~= head + bus + " "@ + kind + " "@);
    let b = d.bus.label_spec();
    let k = d.kind.label_spec();
    assert(c.subrange(51, 51 + b.len() as int) =~= b);
    assert(c.subrange(58, 58 + k.len() as int) =~= k);
}

/// The method panel advises on flash exactly while a disk that is selected and not
/// locked is flash; for an overwrite it shows the options, as they are chosen.
pub proof fn law_panel_advises_on_flash(m: AppModel)
    ensures
        ({
            let p = panel_spec(m);
            let flash = exists|i: int|
                0 <= i < m.disks.len() && m.selected.contains((#[trigger] m.disks[i]).name)
                    && m.disks[i].lock is None && m.disks[i].kind == MediaKind::Ssd;
            let overwrites = m.method() is Overwrite;
            &&& p.len() == 2 + (if overwrites { 1int } else { 0int }) + (if flash { 1int } else { 0int })
            &&& flash ==> p.last().len() == 1 && p.last()[0].text == ssd_advice()
            &&& overwrites ==> {
                &&& p[2][1].text == "["@ + m.verify.label_spec() + "]"@
                &&& p[2][3].text == "["@ + dec(m.rounds as nat) + "]"@
                &&& p[2][5].text == if m.final_blank { "[on]"@ } else { "[off]"@ }
            }
        }),
{
    let keep = |d: DiskModel| m.is_selected(d);
    assert(m.selected_disks() == m.disks.filter(keep));
    if flash_selected(m) {
        let s = m.selected_disks();
        let k = choose|k: int| 0 <= k < s.len() && (#[trigger] s[k]).kind == MediaKind::Ssd;
        m.disks.lemma_filter_pred(keep, k);
        m.disks.lemma_filter_contains_rev(keep, s[k]);
        assert(m.disks.contains(s[k]));
        let i = choose|i: int| 0 <= i < m.disks.len() && m.disks[i] == s[k];
        assert(m.selected.contains(m.disks[i].name));
    }
    if exists|i: int|
        0 <= i < m.disks.len() && m.selected.contains((#[trigger] m.disks[i]).name) && m.disks[i].lock is None
            && m.disks[i].kind == MediaKind::Ssd {
        let i = choose|i: int|
            0 <= i < m.disks.len() && m.selected.contains((#[trigger] m.disks[i]).name)
                && m.disks[i].lock is None && m.disks[i].kind == MediaKind::Ssd;
        m.disks.lemma_filter_contains(keep, i);
        let s = m.selected_disks();
        let k = choose|k: int| 0 <= k < s.len() && s[k] == m.disks[i];
        assert(s[k].kind == MediaKind::Ssd);
    }
}

/// The labels of the verification policies, as the operator reads them.
pub proof fn law_policies_are_labelled()
    ensures
        VerifyMode::Off.label_spec() == "off"@,
        VerifyMode::LastPass.label_spec() == "last pass"@,
        VerifyMode::AllPasses.label_spec() == "all passes"@,
{
}

/// The confirm screen names every disk that will be erased, in order and no other,
/// and asks for the phrase that arms the arming gate, or counts the seconds down,
/// rounded up.
pub proof fn law_confirm_names_every_target(m: AppModel, g: GateModel, i: int)
    requires
        0 <= i < m.targets().len(),
    ensures
        ({
            let c = confirm_spec(m, g);
            let n = m.targets().len() as int;
            &&& c.len() == n + 5 + gate_lines(g).len()
            &&& m.targets()[i].name.is_prefix_of(c[2 + i][1].text)
            &&& g.state is Typing ==> c[n + 5][1].text == "\""@ + g.phrase + "\""@ && c[n + 6][1].text
                == g.state->Typing_0
            &&& (g.state matches GateState::Countdown(ms) ==> c[n + 5][1].text == dec(
                (ms / 1000) + (if ms % 1000 > 0 { 1nat } else { 0nat }),
            ))
        }),
{
    let c = confirm_spec(m, g);
    let d = m.targets()[i];
    assert(c[2 + i] == doomed_line(d));
    let t = c[2 + i][1].text;
    assert(t.subrange(0, d.name.len() as int) =~= d.name);
    let n = m.targets().len() as int;
    assert(c[n + 5] == gate_lines(g)[0]);
    if let GateState::Countdown(ms) = g.state {
        assert((ms + 999) / 1000 == ms / 1000 + (if ms % 1000 > 0 { 1nat } else { 0nat }));
    }
    if g.state is Typing {
        assert(c[n + 6] == gate_lines(g)[1]);
    }
}

/// The line of a job names its disk, the pass in flight of all passes, what the pass
/// writes, and the phase.
pub proof fn law_job_line_tells_the_progress(m: AppModel, i: int, g: GlyphModel, speed: Seq<char>)
    requires
        0 <= i < m.jobs.len(),
    ensures
        ({
            let l = job_line_spec(m, i, g, speed);
            let p = m.jobs[i].progress;
            &&& m.jobs[i].disk.name.is_prefix_of(l[1].text)
            &&& l[2].text == "pass "@ + dec(p.pass_index as nat) + "/"@ + dec(p.pass_count as nat) + " "@
            &&& p.pass_label.is_prefix_of(l[3].text)
            &&& p.phase == Phase::Writing ==> l[4].text == "writing"@
            &&& p.phase == Phase::Verifying ==> l[4].text == "verifying"@
            &&& p.phase == Phase::Done ==> l[4].text == "done"@
            &&& p.phase == Phase::Failed ==> l[4].text == "FAILED"@ && l[4].role == Role::Danger
            &&& p.phase == Phase::Cancelled ==> l[4].text == "cancelled"@
        }),
{
    let l = job_line_spec(m, i, g, speed);
    let name = m.jobs[i].disk.name;
    let label = m.jobs[i].progress.pass_label;
    assert(l[1].text.subrange(0, name.len() as int) =~= name);
    assert(l[3].text.subrange(0, label.len() as int) =~= label);
}

/// The gauge of a job shows its error if it has one; otherwise the percentage, or
/// that it is in progress where a drive at work tells no more.
pub proof fn law_gauge_shows_errors_first(p: ProgressModel, percent: Seq<char>)
    ensures
        p.error matches Some(e) ==> gauge_label(p, percent) == e,
        p.error is None && !p.indeterminate ==> gauge_label(p, percent) == percent,
        p.error is None && p.indeterminate && (p.phase == Phase::Writing || p.phase == Phase::Queued)
            ==> gauge_label(p, percent) == "in progress"@,
        p.error is None && (p.phase == Phase::Done || p.phase == Phase::Cancelled || p.phase
            == Phase::Failed) ==> gauge_label(p, percent) == percent,
{
}

/// The summary of a job names its disk and how it ended, in the color of danger
/// unless it succeeded or was cancelled; its error follows on a line of its own.
pub proof fn law_summary_tells_the_outcome(j: ReportModel, speed: Seq<char>)
    ensures
        ({
            let l = report_line(j, speed);
            let label = if j.status == JobStatus::Success {
                "SUCCESS"@
            } else if j.status == JobStatus::VerifyFailed {
                "VERIFY FAILED"@
            } else if j.status == JobStatus::Failed {
                "FAILED"@
            } else {
                "CANCELLED"@
            };
            &&& l[0].text == "  "@ + left_aligned(j.disk_name, 11) + " "@
            &&& (label + " "@).is_suffix_of(l[2].text)
            &&& l[2].role == Role::Good <==> j.status == JobStatus::Success
            &&& l[2].role == Role::Danger <==> j.status == JobStatus::Failed || j.status
                == JobStatus::VerifyFailed
            &&& j.method_name.is_prefix_of(l[3].text)
            &&& report_lines(j, speed)[0] == l
            &&& j.error is None ==> report_lines(j, speed).len() == 1
            &&& (j.error matches Some(e) ==> report_lines(j, speed).len() == 2 && e.is_suffix_of(
                report_lines(j, speed)[1][0].text,
            ))
        }),
{
    let l = report_line(j, speed);
    let label = j.status.label_spec();
    let t = l[2].text;
    let tail = label + " "@;
    assert(t.subrange(t.len() - tail.len(), t.len() as int) =~= tail);
    assert(l[3].text.subrange(0, j.method_name.len() as int) =~= j.method_name);
    if let Some(e) = j.error {
        let x = report_lines(j, speed)[1][0].text;
        assert(x.subrange(x.len() - e.len(), x.len() as int) =~= e);
    }
}

/// The question whether to cancel names the disk that it is about.
pub proof fn law_cancel_question_names_the_disk(m: AppModel, idx: usize)
    requires
        m.confirm_cancel_job == Some(idx),
        idx < m.jobs.len(),
    ensures
        cancel_modal_spec(m)[1][0].text == "Cancel the wipe of "@ + m.jobs[idx as int].disk.name + "?"@,
{
}

/// The pretty theme is for terminals that say what they are, other than the kernel
/// console and dumb ones, and only where nothing asks for the plain one.
pub proof fn law_console_gets_the_plain_theme(
    plain: bool,
    no_color: bool,
    term: Option<Seq<char>>,
)
    ensures
        is_fancy(plain, no_color, term) <==> {
            &&& !plain
            &&& !no_color
            &&& term is Some
            &&& term->0 != "linux"@
            &&& term->0 != "dumb"@
            &&& term->0.len() > 0
        },
{
    reveal_strlit("");
    assert(""@ =~= Seq::<char>::empty());
    if term is Some && term->0.len() == 0 {
        assert(term->0 =~= ""@);
    }
}

/// A job that has ended is given no time that it would still take.
pub proof fn law_ended_jobs_have_no_time_left(m: AppModel, i: int)
    requires
        0 <= i < m.jobs.len(),
    ensures
        ({
            let phase = m.jobs[i].progress.phase;
            phase == Phase::Done || phase == Phase::Failed || phase == Phase::Cancelled
        }) ==> eta_text(m, i) == "-"@,
{
}

/// A text that a theme can draw is drawn as it is.
pub proof fn law_safe_text_is_drawn_as_it_is(s: Seq<char>, fancy: bool)
    requires
        forall|i: int| 0 <= i < s.len() ==> is_safe_glyph(#[trigger] s[i], fancy),
    ensures
        shown_text(s, fancy) == s,
{
    assert(shown_text(s, fancy) =~= s);
}

/// The method panel, and the confirm screen before a start, name the method that the
/// start would carry out; for an overwrite the latter tells how many passes will be
/// written and how they are verified.
pub proof fn law_screens_name_the_method(m: AppModel, g: GateModel)
    ensures
        ({
            let name = match m.method() {
                MethodChoice::Overwrite(i) => registry()[i as int].name,
                MethodChoice::Firmware(f) => f.name_spec(),
            };
            let c = confirm_spec(m, g);
            let line = c[m.targets().len() as int + 3][0].text;
            &&& panel_spec(m)[0][1].text == name
            &&& m.method() is Firmware ==> line == "Method: "@ + name
            &&& m.method() is Overwrite ==> line == "Method: "@ + name + " │ "@ + dec(
                m.spec()->0.plan().len(),
            ) + " write pass(es) │ verify "@ + m.verify.label_spec()
        }),
{
    let c = confirm_spec(m, g);
    let n = m.targets().len() as int;
    assert(c[n + 3] == seq![crate::ui::sp(crate::ui::method_summary(m), Role::Muted)]);
}

} // verus!
