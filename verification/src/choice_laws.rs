//! What the operator chooses, and what is done about it.

use vstd::prelude::*;

use crate::algorithm::{registry, VerifyMode};
use crate::app_laws::no_overlay;
use crate::app_model::{
    disks_found, fresh_app, jobs_started, key_pressed,
    launches_of, not_started, picker, refreshed, scan_supports, tick_jobs, tick_quit, ticked_app, AppModel, Effect, ExitAction, KeyCode, KeyEvent, LaunchModel, MethodChoice, Screen,
};
use crate::device::{Disk, DiskModel};
use crate::engine::{erase_job_spec, wipe_job_spec, HandleModel, Phase};
use crate::error::CoreError;
use crate::firmware::{FirmwareMethod, FirmwareSupport};
use crate::safety::{arm_phrase, GateState};
use crate::speed::law_window_keeps_the_latest;
use crate::sysinfo::SystemModel;

verus! {

/// The disks screen, with nothing over it.
pub open spec fn choosing(m: AppModel) -> bool {
    m.screen == Screen::Disks && no_overlay(m)
}

/// A key without the control key.
pub open spec fn key(code: KeyCode) -> KeyEvent {
    KeyEvent { code, control: false }
}

/// The state after a key without the control key.
pub open spec fn after_key(m: AppModel, code: KeyCode, now_ns: u64) -> AppModel {
    key_pressed(m, key(code), now_ns).0
}

/// The keys that toggle a disk.
pub open spec fn toggles(code: KeyCode) -> bool {
    code == KeyCode::Char(' ') || code == KeyCode::Enter
}

/// The toggle key on an unlocked disk flips whether that disk is selected, and
/// nothing else; pressed twice it gives the selection back.
pub proof fn law_toggle_flips_one_disk(m: AppModel, code: KeyCode, now_ns: u64, name: Seq<char>)
    requires
        choosing(m),
        toggles(code),
        m.cursor < m.disks.len(),
        m.disks[m.cursor as int].lock is None,
    ensures
        ({
            let d = m.disks[m.cursor as int];
            let once = after_key(m, code, now_ns);
            let twice = after_key(once, code, now_ns);
            &&& once.selected.contains(d.name) <==> !m.selected.contains(d.name)
            &&& name != d.name ==> (once.selected.contains(name) <==> m.selected.contains(name))
            &&& once == AppModel { selected: once.selected, ..m }
            &&& twice == m
        }),
{
    let once = after_key(m, code, now_ns);
    let twice = after_key(once, code, now_ns);
    assert(twice.selected =~= m.selected);
}

/// The toggle key on a locked disk selects nothing, and says why: the message names
/// the disk.
pub proof fn law_toggle_refuses_a_locked_disk(m: AppModel, code: KeyCode, now_ns: u64)
    requires
        choosing(m),
        toggles(code),
        m.cursor < m.disks.len(),
        m.disks[m.cursor as int].lock is Some,
    ensures
        ({
            let d = m.disks[m.cursor as int];
            let after = after_key(m, code, now_ns);
            &&& after == AppModel { status: after.status, ..m }
            &&& after.status matches Some((msg, at)) && at == now_ns && d.name.is_prefix_of(msg)
        }),
{
    let d = m.disks[m.cursor as int];
    let (msg, at) = after_key(m, code, now_ns).status->0;
    assert(msg.subrange(0, d.name.len() as int) =~= d.name);
}

/// Only the toggle key on the disks screen, and a new session, change the
/// selection; only the latter can do so to more than one disk, and it clears it.
pub proof fn law_only_the_toggle_selects(m: AppModel, e: KeyEvent, now_ns: u64)
    ensures
        ({
            let after = key_pressed(m, e, now_ns).0;
            after.selected == m.selected || (choosing(m) && toggles(e.code)) || (m.screen
                == Screen::Summary && after.selected == Set::<Seq<char>>::empty() && after.jobs.len()
                == 0)
        }),
{
}

/// The arrow keys, and `j` and `k`, move the cursor by one disk and stop at the ends;
/// they change nothing else.
pub proof fn law_cursor_moves_by_one(m: AppModel, now_ns: u64)
    requires
        choosing(m),
        m.cursor < m.disks.len(),
    ensures
        ({
            let down = after_key(m, KeyCode::Down, now_ns);
            let up = after_key(m, KeyCode::Up, now_ns);
            &&& down == after_key(m, KeyCode::Char('j'), now_ns)
            &&& up == after_key(m, KeyCode::Char('k'), now_ns)
            &&& down == AppModel { cursor: down.cursor, ..m }
            &&& up == AppModel { cursor: up.cursor, ..m }
            &&& m.cursor + 1 < m.disks.len() ==> down.cursor == m.cursor + 1 && after_key(
                down,
                KeyCode::Up,
                now_ns,
            ) == m
            &&& m.cursor + 1 == m.disks.len() ==> down == m
            &&& m.cursor > 0 ==> up.cursor == m.cursor - 1
            &&& m.cursor == 0 ==> up == m
        }),
{
}

/// While an overwrite is selected, `v` goes on from no verification to the last
/// pass, to all passes, and back; `+` and `-` count the rounds up and down between
/// one and nine; `b` switches the final blank. Each changes that option alone.
pub proof fn law_option_keys_change_one_option(m: AppModel, now_ns: u64)
    requires
        choosing(m),
        m.method_idx < picker().len(),
        m.method() is Overwrite,
        1 <= m.rounds <= 9,
    ensures
        ({
            let v = after_key(m, KeyCode::Char('v'), now_ns);
            let more = after_key(m, KeyCode::Char('+'), now_ns);
            let less = after_key(m, KeyCode::Char('-'), now_ns);
            let b = after_key(m, KeyCode::Char('b'), now_ns);
            &&& v == AppModel { verify: v.verify, ..m }
            &&& more == AppModel { rounds: more.rounds, ..m }
            &&& less == AppModel { rounds: less.rounds, ..m }
            &&& b == AppModel { final_blank: b.final_blank, ..m }
            &&& m.verify == VerifyMode::Off ==> v.verify == VerifyMode::LastPass
            &&& m.verify == VerifyMode::LastPass ==> v.verify == VerifyMode::AllPasses
            &&& m.verify == VerifyMode::AllPasses ==> v.verify == VerifyMode::Off
            &&& m.rounds < 9 ==> more.rounds == m.rounds + 1
            &&& m.rounds == 9 ==> more.rounds == 9
            &&& m.rounds > 1 ==> less.rounds == m.rounds - 1
            &&& m.rounds == 1 ==> less.rounds == 1
            &&& b.final_blank == !m.final_blank
            &&& after_key(m, KeyCode::Char('='), now_ns) == more
        }),
{
}

/// The method keys go through the list of methods one by one, round and round, and
/// bring the verification policy of an overwrite scheme along; the selection, the
/// rounds and the final blank stay.
pub proof fn law_method_keys_pick_the_neighbour(m: AppModel, now_ns: u64)
    requires
        choosing(m),
        m.method_idx < picker().len(),
    ensures
        ({
            let right = after_key(m, KeyCode::Right, now_ns);
            let left = after_key(m, KeyCode::Left, now_ns);
            let last = (picker().len() - 1) as nat;
            &&& m.method_idx < last ==> right.method_idx == m.method_idx + 1
            &&& m.method_idx == last ==> right.method_idx == 0
            &&& m.method_idx > 0 ==> left.method_idx == m.method_idx - 1
            &&& m.method_idx == 0 ==> left.method_idx == last
            &&& after_key(m, KeyCode::Char('>'), now_ns) == right
            &&& after_key(m, KeyCode::Char(']'), now_ns) == right
            &&& after_key(m, KeyCode::Char('<'), now_ns) == left
            &&& after_key(m, KeyCode::Char('['), now_ns) == left
            &&& right == AppModel { method_idx: right.method_idx, verify: right.verify, ..m }
            &&& left == AppModel { method_idx: left.method_idx, verify: left.verify, ..m }
            &&& (right.method() matches MethodChoice::Overwrite(i) ==> right.verify
                == registry()[i as int].default_verify)
            &&& right.method() is Firmware ==> right.verify == m.verify
            &&& (left.method() matches MethodChoice::Overwrite(i) ==> left.verify
                == registry()[i as int].default_verify)
            &&& left.method() is Firmware ==> left.verify == m.verify
        }),
{
    assert(picker().len() == 17);
}

/// Every overwrite scheme, and every ATA and NVMe command, can be picked, each in
/// one place of the list.
pub proof fn law_every_method_can_be_picked(i: int, j: int)
    requires
        0 <= i < picker().len(),
        0 <= j < picker().len(),
    ensures
        picker().len() == registry().len() + 6,
        picker()[i] == picker()[j] ==> i == j,
        i < registry().len() ==> picker()[i] == MethodChoice::Overwrite(i as usize),
        i >= registry().len() ==> picker()[i] is Firmware,
        picker().contains(MethodChoice::Firmware(FirmwareMethod::AtaSecureErase { enhanced: false })),
        picker().contains(MethodChoice::Firmware(FirmwareMethod::AtaSecureErase { enhanced: true })),
        picker().contains(MethodChoice::Firmware(FirmwareMethod::NvmeFormat { crypto: false })),
        picker().contains(MethodChoice::Firmware(FirmwareMethod::NvmeFormat { crypto: true })),
        picker().contains(MethodChoice::Firmware(FirmwareMethod::NvmeSanitize { crypto: false })),
        picker().contains(MethodChoice::Firmware(FirmwareMethod::NvmeSanitize { crypto: true })),
{
    let p = picker();
    assert(p[11] == MethodChoice::Firmware(FirmwareMethod::AtaSecureErase { enhanced: false }));
    assert(p[12] == MethodChoice::Firmware(FirmwareMethod::AtaSecureErase { enhanced: true }));
    assert(p[13] == MethodChoice::Firmware(FirmwareMethod::NvmeFormat { crypto: false }));
    assert(p[14] == MethodChoice::Firmware(FirmwareMethod::NvmeFormat { crypto: true }));
    assert(p[15] == MethodChoice::Firmware(FirmwareMethod::NvmeSanitize { crypto: false }));
    assert(p[16] == MethodChoice::Firmware(FirmwareMethod::NvmeSanitize { crypto: true }));
}

/// The targets are exactly the disks of the list that are selected, not locked, and
/// within the reach of the method: an overwrite reaches every disk, a firmware
/// command those whose drive supports it.
pub proof fn law_targets_are_exactly_the_chosen_disks(m: AppModel, d: DiskModel)
    ensures
        m.targets().contains(d) <==> {
            &&& m.disks.contains(d)
            &&& m.selected.contains(d.name)
            &&& d.lock is None
            &&& (m.method() matches MethodChoice::Firmware(f) ==> {
                &&& m.supports.dom().contains(d.name)
                &&& m.supports[d.name].supports_spec(f)
            })
        },
{
    let keep = |x: DiskModel| m.is_selected(x) && m.capable(x);
    assert(m.targets() == m.disks.filter(keep));
    if m.targets().contains(d) {
        let i = choose|i: int| 0 <= i < m.targets().len() && m.targets()[i] == d;
        m.disks.lemma_filter_pred(keep, i);
        assert(keep(d));
        m.disks.lemma_filter_contains_rev(keep, d);
    }
    if m.disks.contains(d) && keep(d) {
        let i = choose|i: int| 0 <= i < m.disks.len() && m.disks[i] == d;
        m.disks.lemma_filter_contains(keep, i);
    }
}

/// A drive supports an ATA erase only while its security is not frozen, and every
/// command exactly if it advertises it.
pub proof fn law_support_is_what_the_drive_advertises(s: FirmwareSupport)
    ensures
        s.supports_spec(FirmwareMethod::AtaSecureErase { enhanced: false }) <==> s.ata_secure_erase
            && !s.ata_frozen,
        s.supports_spec(FirmwareMethod::AtaSecureErase { enhanced: true }) <==> s.ata_enhanced_erase
            && !s.ata_frozen,
        s.supports_spec(FirmwareMethod::NvmeFormat { crypto: false }) <==> s.nvme_format_user,
        s.supports_spec(FirmwareMethod::NvmeFormat { crypto: true }) <==> s.nvme_format_crypto,
        s.supports_spec(FirmwareMethod::NvmeSanitize { crypto: false }) <==> s.nvme_sanitize_block,
        s.supports_spec(FirmwareMethod::NvmeSanitize { crypto: true }) <==> s.nvme_sanitize_crypto,
        s.supports_spec(FirmwareMethod::TcgRevert) <==> s.opal,
{
}

/// The start key opens the arming ceremony for as many disks as there are targets,
/// exactly if there are any; otherwise it says why and stays.
pub proof fn law_start_key_arms_the_targets(m: AppModel, now_ns: u64)
    requires
        choosing(m),
        m.gate is None,
    ensures
        ({
            let after = after_key(m, KeyCode::Char('s'), now_ns);
            &&& m.targets().len() > 0 && m.selected_disks().len() > 0 ==> {
                &&& after.screen == Screen::Confirm
                &&& after.gate matches Some(g) && g.disks == m.targets().len() && g.phrase
                    == arm_phrase(m.targets().len()) && g.state == GateState::Typing(
                    Seq::empty(),
                )
            }
            &&& m.targets().len() == 0 || m.selected_disks().len() == 0 ==> {
                &&& after.screen == Screen::Disks
                &&& after.gate is None
                &&& after.status is Some
            }
            &&& after.selected == m.selected && after.jobs == m.jobs && after.disks == m.disks
        }),
{
}

/// When the ceremony is complete, one job starts on each target and on no other
/// disk, in the order of the list, and does what was chosen: the scheme with the
/// rounds, verification and final blank of the operator, or the firmware command.
pub proof fn law_jobs_do_what_was_chosen(m: AppModel, i: int, now_ns: u64)
    requires
        0 <= i < m.targets().len(),
    ensures
        ({
            let after = jobs_started(m, now_ns);
            let launches = launches_of(m);
            let d = m.targets()[i];
            &&& after.jobs.len() == m.targets().len() == launches.len()
            &&& after.jobs[i].disk == d
            &&& !after.jobs[i].cancel && after.jobs[i].report is None && !after.jobs[i].exited
            &&& after.screen == Screen::Wiping && after.gate is None
            &&& (m.method() matches MethodChoice::Overwrite(k) ==> {
                &&& launches[i] matches LaunchModel::Wipe { disk, spec, job }
                &&& disk == d
                &&& spec.scheme == registry()[k as int]
                &&& spec.rounds == m.rounds
                &&& spec.verify == m.verify
                &&& spec.final_blank == m.final_blank
                &&& job.size == d.size_bytes
                &&& job.passes == spec.plan()
                &&& job == wipe_job_spec(d, spec)
            })
            &&& (m.method() matches MethodChoice::Firmware(f) ==> {
                &&& launches[i] matches LaunchModel::Firmware { disk, erase }
                &&& disk == d
                &&& erase.method == f
                &&& erase.simulated == d.simulated
                &&& erase.bus == d.bus
                &&& erase.size == d.size_bytes
                &&& erase == erase_job_spec(d, f)
            })
        }),
{
}

/// Where the operator confirms a cancellation, that job is asked to stop and no
/// other; where not, none is.
pub proof fn law_cancelling_stops_one_job(m: AppModel, idx: usize, now_ns: u64, i: int)
    requires
        !m.show_help,
        !m.confirm_quit,
        m.confirm_cancel_job == Some(idx),
        0 <= i < m.jobs.len(),
    ensures
        ({
            let yes = after_key(m, KeyCode::Char('y'), now_ns);
            let no = after_key(m, KeyCode::Char('n'), now_ns);
            &&& yes.jobs.len() == m.jobs.len()
            &&& i == idx ==> yes.jobs[i] == (HandleModel { cancel: true, ..m.jobs[i] })
            &&& i != idx ==> yes.jobs[i] == m.jobs[i]
            &&& yes.confirm_cancel_job is None
            &&& no == AppModel { confirm_cancel_job: None, ..m }
            &&& after_key(m, KeyCode::Esc, now_ns) == no
        }),
{
}

/// A scan takes the place of the list; the disks that are still there stay selected,
/// those that are gone do not, and none becomes selected. The cursor stays on the
/// list.
pub proof fn law_scan_keeps_present_selections(
    m: AppModel,
    found: Seq<(Disk, FirmwareSupport)>,
    name: Seq<char>,
    i: int,
)
    requires
        0 <= i < found.len(),
    ensures
        ({
            let after = disks_found(m, found);
            &&& after.disks.len() == found.len()
            &&& after.disks[i] == found[i].0@
            &&& after.selected.contains(name) <==> m.selected.contains(name) && exists|k: int|
                0 <= k < found.len() && (#[trigger] found[k]).0.name@ == name
            &&& after.cursor < found.len()
            &&& m.cursor < found.len() ==> after.cursor == m.cursor
            &&& after.method_idx == m.method_idx && after.rounds == m.rounds && after.verify == m.verify
                && after.final_blank == m.final_blank
        }),
{
    let after = disks_found(m, found);
    if m.selected.contains(name) && exists|k: int|
        0 <= k < found.len() && (#[trigger] found[k]).0.name@ == name {
        let k = choose|k: int| 0 <= k < found.len() && (#[trigger] found[k]).0.name@ == name;
        assert(after.disks[k].name == name);
    }
    if after.selected.contains(name) {
        let k = choose|k: int| 0 <= k < after.disks.len() && (#[trigger] after.disks[k]).name == name;
        assert(found[k].0.name@ == name);
    }
}

/// What a scan found out about a drive is what counts for it, where no other disk has
/// its name.
pub proof fn law_scan_tells_the_support(found: Seq<(Disk, FirmwareSupport)>, i: int)
    requires
        0 <= i < found.len(),
        forall|k: int| 0 <= k < found.len() && k != i ==> (#[trigger] found[k]).0.name@ != found[i].0.name@,
    ensures
        scan_supports(found).dom().contains(found[i].0.name@),
        scan_supports(found)[found[i].0.name@] == found[i].1,
    decreases found.len(),
{
    let last = found.len() - 1;
    if i < last {
        let less = found.drop_last();
        assert forall|k: int| 0 <= k < less.len() && k != i implies (#[trigger] less[k]).0.name@
            != less[i].0.name@ by {
            assert(less[k] == found[k]);
        }
        law_scan_tells_the_support(less, i);
        assert(found[last].0.name@ != found[i].0.name@);
    }
}

/// A session is summed up once every job has left its report: each report is in the
/// summary, in the order of the jobs, with the host and whether it was a simulation.
pub proof fn law_summary_holds_every_report(m: AppModel, now_ns: u64, unix_now: u64, i: int)
    requires
        m.screen == Screen::Wiping,
        !m.quitting,
        0 <= i < m.jobs.len(),
    ensures
        ({
            let after = tick_jobs(m, now_ns, unix_now);
            let all = forall|k: int| 0 <= k < m.jobs.len() ==> (#[trigger] m.jobs[k]).report is Some;
            &&& after.screen == Screen::Summary <==> all
            &&& !all ==> after.session_report == m.session_report
            &&& all ==> {
                &&& after.session_report matches Some(r)
                &&& r.jobs.len() == m.jobs.len()
                &&& Some(r.jobs[i]) == m.jobs[i].report
                &&& r.host == m.sys
                &&& r.simulation == m.simulation
                &&& r.created_unix == unix_now
            }
        }),
{
}

/// The application starts with nothing selected, the recommended scheme with its own
/// verification policy, one round, no final blank, and no ceremony under way.
pub proof fn law_fresh_app_chooses_nothing_dangerous(
    simulation: bool,
    pid1: bool,
    sys: SystemModel,
    name: Seq<char>,
)
    ensures
        ({
            let m = fresh_app(simulation, pid1, sys);
            &&& !m.selected.contains(name)
            &&& m.gate is None && m.jobs.len() == 0 && m.exit is None
            &&& m.screen == Screen::Disks && no_overlay(m)
            &&& m.method() matches MethodChoice::Overwrite(i)
            &&& registry()[i as int].recommended
            &&& m.verify == registry()[i as int].default_verify
            &&& m.rounds == 1 && !m.final_blank
            &&& m.simulation == simulation && m.pid1 == pid1 && m.sys == sys
        }),
{
    assert(picker()[0] == MethodChoice::Overwrite(0));
}

/// The save key asks for the report to be saved exactly on the summary of a session
/// that has one.
pub proof fn law_report_is_saved_on_request(m: AppModel, e: KeyEvent, now_ns: u64)
    ensures
        key_pressed(m, e, now_ns).1 == Effect::SaveReport ==> m.screen == Screen::Summary
            && m.session_report is Some && e.code == KeyCode::Char('w'),
        m.screen == Screen::Summary && no_overlay(m) && m.session_report is Some && e == key(
            KeyCode::Char('w'),
        ) ==> key_pressed(m, e, now_ns) == (m, Effect::SaveReport),
{
}

/// Leaving: as the init process the program can only reboot or power off, and
/// otherwise only return to the shell; with workers running, or as the init process,
/// a quit key only asks.
pub proof fn law_quit_key_asks_first(m: AppModel, now_ns: u64)
    requires
        no_overlay(m),
        m.screen != Screen::Confirm,
        m.exit is None,
    ensures
        ({
            let after = after_key(m, KeyCode::Char('q'), now_ns);
            &&& m.running() || m.pid1 ==> after == AppModel { confirm_quit: true, ..m }
            &&& !m.running() && !m.pid1 ==> after == AppModel { exit: Some(ExitAction::Quit), ..m }
            &&& after_key(m, KeyCode::Esc, now_ns) == after
        }),
{
}

/// The answer to the quit question: yes leaves a hosted program, `r` and `p` reboot
/// and power off the appliance, and no stays. With workers running, leaving waits.
pub proof fn law_quit_answers(m: AppModel, now_ns: u64)
    requires
        !m.show_help,
        m.confirm_quit,
        m.exit is None,
    ensures
        ({
            let yes = after_key(m, KeyCode::Char('y'), now_ns);
            let reboot = after_key(m, KeyCode::Char('r'), now_ns);
            let off = after_key(m, KeyCode::Char('p'), now_ns);
            &&& after_key(m, KeyCode::Char('n'), now_ns) == AppModel { confirm_quit: false, ..m }
            &&& m.pid1 ==> yes == m
            &&& !m.pid1 ==> reboot == m && off == m
            &&& m.running() ==> yes.exit is None && reboot.exit is None && off.exit is None
            &&& !m.running() && !m.pid1 ==> yes.exit == Some(ExitAction::Quit)
            &&& !m.running() && m.pid1 ==> reboot.exit == Some(ExitAction::Reboot) && off.exit == Some(
                ExitAction::PowerOff,
            )
            &&& m.running() && !m.pid1 ==> yes.quitting && yes.pending_exit == Some(ExitAction::Quit)
            &&& m.running() && m.pid1 ==> {
                &&& reboot.quitting && reboot.pending_exit == Some(ExitAction::Reboot)
                &&& off.quitting && off.pending_exit == Some(ExitAction::PowerOff)
            }
        }),
{
}

/// On the confirm screen the operator types the phrase: characters and backspace go
/// to the arming gate, enter starts the countdown of five seconds exactly if the
/// phrase is typed, and escape leaves.
pub proof fn law_confirm_keys(m: AppModel, c: char, now_ns: u64, typed: Seq<char>)
    requires
        m.screen == Screen::Confirm,
        no_overlay(m),
        m.gate matches Some(g) && g.state == GateState::Typing(typed),
    ensures
        ({
            let g = m.gate->0;
            let enter = after_key(m, KeyCode::Enter, now_ns);
            let esc = after_key(m, KeyCode::Esc, now_ns);
            let back = after_key(m, KeyCode::Backspace, now_ns);
            let letter = after_key(m, KeyCode::Char(c), now_ns);
            &&& typed == g.phrase ==> (enter.gate matches Some(h) && h.state == GateState::Countdown(
                5000,
            ))
            &&& typed != g.phrase ==> enter.gate == m.gate && enter.status is Some
            &&& esc.gate is None && esc.screen == Screen::Disks && esc.selected == m.selected
            &&& typed.len() > 0 ==> (back.gate matches Some(h) && h.state == GateState::Typing(
                typed.drop_last(),
            ))
            &&& 'A' <= c <= 'Z' || '0' <= c <= '9' || c == ' ' ==> (letter.gate matches Some(h) && h.state
                == GateState::Typing(typed.push(c)))
            &&& letter.screen == Screen::Confirm && letter.jobs == m.jobs
        }),
{
}

/// On the wiping screen the cursor moves over the jobs, and `c` asks whether to cancel
/// the one under it unless that has ended.
pub proof fn law_wiping_keys(m: AppModel, now_ns: u64)
    requires
        m.screen == Screen::Wiping,
        no_overlay(m),
        m.cursor < m.jobs.len() <= usize::MAX,
    ensures
        ({
            let down = after_key(m, KeyCode::Down, now_ns);
            let up = after_key(m, KeyCode::Up, now_ns);
            let c = after_key(m, KeyCode::Char('c'), now_ns);
            let phase = m.jobs[m.cursor as int].progress.phase;
            let ended = phase == Phase::Done || phase == Phase::Failed || phase == Phase::Cancelled;
            &&& m.cursor + 1 < m.jobs.len() ==> down == AppModel { cursor: m.cursor + 1, ..m }
            &&& m.cursor + 1 == m.jobs.len() ==> down == m
            &&& m.cursor > 0 ==> up == AppModel { cursor: (m.cursor - 1) as nat, ..m }
            &&& m.cursor == 0 ==> up == m
            &&& ended ==> c == m
            &&& !ended ==> c == AppModel { confirm_cancel_job: Some(m.cursor as usize), ..m }
        }),
{
}

/// On the summary screen `n` begins a new session, with a new scan and nothing
/// selected or left over; `p` and `r` power the appliance off or reboot it, and do
/// nothing elsewhere.
pub proof fn law_summary_keys(m: AppModel, now_ns: u64)
    requires
        m.screen == Screen::Summary,
        no_overlay(m),
        m.exit is None,
    ensures
        ({
            let (n, asks) = key_pressed(m, key(KeyCode::Char('n')), now_ns);
            let off = after_key(m, KeyCode::Char('p'), now_ns);
            let reboot = after_key(m, KeyCode::Char('r'), now_ns);
            &&& asks == Effect::Refresh
            &&& n.screen == Screen::Disks
            &&& n.jobs.len() == 0 && n.trackers.len() == 0
            &&& n.selected == Set::<Seq<char>>::empty()
            &&& n.session_report is None && n.saved_report_path is None
            &&& m.pid1 ==> off.exit == Some(ExitAction::PowerOff) && reboot.exit == Some(
                ExitAction::Reboot,
            )
            &&& !m.pid1 ==> off == m && reboot == m
        }),
{
}

/// The help shows on `?` and goes on any key, which does nothing else.
pub proof fn law_help_closes_on_any_key(m: AppModel, code: KeyCode, now_ns: u64)
    ensures
        m.show_help ==> after_key(m, code, now_ns) == (AppModel { show_help: false, ..m }),
        choosing(m) ==> after_key(m, KeyCode::Char('?'), now_ns) == (AppModel { show_help: true, ..m }),
{
}

/// A tick moves the animation on and takes a message away that is older than four
/// seconds, and no younger one.
pub proof fn law_messages_stay_for_four_seconds(
    m: AppModel,
    elapsed_ms: nat,
    now_ns: u64,
    unix_now: u64,
    msg: Seq<char>,
    at: u64,
)
    requires
        m.status == Some((msg, at)),
        m.screen != Screen::Confirm,
    ensures
        ({
            let after = ticked_app(m, elapsed_ms, now_ns, unix_now);
            &&& now_ns - at > 4_000_000_000 ==> after.status is None
            &&& now_ns - at <= 4_000_000_000 ==> after.status == m.status
            &&& m.spinner_frame < usize::MAX ==> after.spinner_frame == m.spinner_frame + 1
        }),
{
}

/// A tick samples the progress of each job under way, at that time, and of no other.
pub proof fn law_ticks_sample_running_jobs(m: AppModel, now_ns: u64, unix_now: u64, i: int)
    requires
        m.screen == Screen::Wiping,
        m.trackers.len() == m.jobs.len(),
        0 <= i < m.jobs.len(),
    ensures
        ({
            let after = tick_jobs(m, now_ns, unix_now);
            let phase = m.jobs[i].progress.phase;
            let ended = phase == Phase::Done || phase == Phase::Failed || phase == Phase::Cancelled;
            &&& after.trackers.len() == m.trackers.len()
            &&& ended ==> after.trackers[i] == m.trackers[i]
            &&& !ended ==> after.trackers[i].len() > 0 && after.trackers[i].last() == (
                now_ns,
                m.jobs[i].progress.work_done,
            )
        }),
{
    let s = m.trackers[i].push((now_ns, m.jobs[i].progress.work_done));
    law_window_keeps_the_latest(s, now_ns);
}

/// A deferred exit takes place once no worker runs, as it was chosen.
pub proof fn law_deferred_exit_takes_place(m: AppModel)
    ensures
        ({
            let after = tick_quit(m);
            &&& m.quitting && !m.running() && m.pending_exit is Some ==> after.exit == m.pending_exit
            &&& !m.quitting || m.running() ==> after == m
        }),
{
}

/// A job that could not be started is taken off the list, the others stay in their
/// order; where none is left the disks screen is back with its cursor.
pub proof fn law_job_not_started_is_dropped(m: AppModel, idx: int, error: Seq<char>, now_ns: u64, k: int)
    requires
        0 <= idx < m.jobs.len(),
        m.trackers.len() == m.jobs.len(),
        0 <= k < m.jobs.len() - 1,
    ensures
        ({
            let after = not_started(m, idx, error, now_ns);
            &&& after.jobs.len() == m.jobs.len() - 1
            &&& after.jobs[k] == m.jobs[if k < idx { k } else { k + 1 }]
            &&& after.trackers[k] == m.trackers[if k < idx { k } else { k + 1 }]
            &&& after.screen == m.screen
            &&& after.status is Some
        }),
{
}

/// Where the only job could not be started, the disks screen is back as it was.
pub proof fn law_no_job_started_goes_back(m: AppModel, error: Seq<char>, now_ns: u64)
    requires
        m.jobs.len() == 1,
        m.trackers.len() == 1,
    ensures
        ({
            let after = not_started(m, 0, error, now_ns);
            &&& after.jobs.len() == 0
            &&& after.screen == Screen::Disks
            &&& after.cursor == m.disk_cursor
            &&& after.selected == m.selected
        }),
{
}

/// A scan that failed leaves the list and the selection as they were, and says so.
pub proof fn law_failed_scan_keeps_the_list(
    m: AppModel,
    found: Result<Vec<(Disk, FirmwareSupport)>, CoreError>,
    now_ns: u64,
)
    ensures
        found matches Err(e) ==> refreshed(m, found, now_ns) == (AppModel {
            status: Some(("disk scan failed: "@ + e.message_spec(), now_ns)),
            ..m
        }),
        found matches Ok(list) ==> refreshed(m, found, now_ns) == disks_found(m, list@),
{
}

/// A worker counts as running until it has left a report or exited.
pub proof fn law_workers_run_until_they_report(m: AppModel, i: int)
    requires
        0 <= i < m.jobs.len(),
    ensures
        m.jobs[i].report is None && !m.jobs[i].exited ==> m.running(),
        (forall|k: int|
            0 <= k < m.jobs.len() ==> (#[trigger] m.jobs[k]).report is Some || m.jobs[k].exited)
            ==> !m.running(),
{
    if m.jobs[i].report is None && !m.jobs[i].exited {
        assert(!crate::app_model::finished(m.jobs[i]));
    }
}

} // verus!
