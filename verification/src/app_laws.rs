//! What holds of the application whatever the operator does.

use vstd::prelude::*;

use crate::app_model::{
    confirmation_begun, counting_down, finished, fresh_app, key_on_confirm, key_on_disks, key_pressed,
    lemma_same_targets, picker, quit_settled, refreshed, same_choice, tick_animation, tick_arms,
    tick_countdown, tick_jobs, tick_quit, ticked_app, AppModel, Effect, ExitAction, KeyCode, KeyEvent, Screen,
    MAX_ROUNDS,
};
use crate::device::Disk;
use crate::error::CoreError;
use crate::firmware::FirmwareSupport;
use crate::safety::{
    confirmed_at, gate_after, gate_run, law_token_needs_the_ceremony, new_gate, ticked, tick_releases,
    tokens_released, GateInput, COUNTDOWN_MS,
};
use crate::sysinfo::SystemModel;

verus! {

/// A key press selects nothing but an unlocked disk of the list.
pub proof fn law_locked_disks_cannot_be_selected(
    m: AppModel,
    e: KeyEvent,
    now_ns: u64,
    name: Seq<char>,
)
    requires
        key_pressed(m, e, now_ns).0.selected.contains(name),
        !m.selected.contains(name),
    ensures
        exists|i: int|
            0 <= i < m.disks.len() && (#[trigger] m.disks[i]).name == name && m.disks[i].lock is None,
{
    assert(m.screen == Screen::Disks);
    assert(m.cursor < m.disks.len());
    assert(m.disks[m.cursor as int].name == name);
}

/// Key presses never start a job and never lose one, except that a new session
/// begins without the old jobs.
pub proof fn law_keys_start_no_jobs(m: AppModel, e: KeyEvent, now_ns: u64)
    ensures
        ({
            let after = key_pressed(m, e, now_ns).0;
            after.jobs.len() == m.jobs.len() || (after.jobs.len() == 0 && m.screen
                == Screen::Summary)
        }),
{
}

/// A tick starts jobs only by completing the arming ceremony.
pub proof fn law_ticks_start_jobs_only_when_armed(
    m: AppModel,
    elapsed_ms: nat,
    now_ns: u64,
    unix_now: u64,
)
    requires
        !tick_arms(m, elapsed_ms),
    ensures
        ticked_app(m, elapsed_ms, now_ns, unix_now).jobs == m.jobs,
{
}

/// Whether a gate is one that a ceremony for `m`'s targets has led to.
pub open spec fn genuine_gate(m: AppModel, inputs: Seq<GateInput>) -> bool {
    m.gate == Some(gate_run(new_gate(m.targets().len()), inputs))
}

/// No help and no question covers the screen.
pub open spec fn no_overlay(m: AppModel) -> bool {
    !m.show_help && !m.confirm_quit && m.confirm_cancel_job is None
}

/// A gate exists only on the confirm screen, and has been led to where it
/// stands by a ceremony for exactly the present targets; nothing covers the
/// screen while it counts down.
pub open spec fn gate_is_genuine(m: AppModel) -> bool {
    m.gate is Some ==> {
        &&& m.screen == Screen::Confirm
        &&& m.gate->0.state is Countdown ==> no_overlay(m)
        &&& exists|inputs: Seq<GateInput>| #[trigger] genuine_gate(m, inputs)
    }
}

/// During the countdown any key aborts: the arming gate is gone, the disks screen
/// is back, and nothing has started.
pub proof fn law_any_key_aborts_the_countdown(m: AppModel, e: KeyEvent, now_ns: u64)
    requires
        gate_is_genuine(m),
        counting_down(m),
    ensures
        ({
            let after = key_pressed(m, e, now_ns).0;
            &&& after.gate is None
            &&& after.screen == Screen::Disks
            &&& after.jobs == m.jobs
        }),
{
}

proof fn lemma_gate_moves(m: AppModel, after: AppModel, input: GateInput)
    requires
        gate_is_genuine(m),
        m.gate is Some,
        same_choice(m, after),
        after.screen == m.screen,
        after.gate == Some(gate_after(m.gate->0, input)),
        after.gate->0.state is Countdown ==> no_overlay(after),
    ensures
        gate_is_genuine(after),
{
    lemma_same_targets(m, after);
    let inputs = choose|inputs: Seq<GateInput>| #[trigger] genuine_gate(m, inputs);
    let more = inputs.push(input);
    assert(more.drop_last() =~= inputs);
    assert(genuine_gate(after, more));
}

proof fn lemma_gate_stays(m: AppModel, after: AppModel)
    requires
        gate_is_genuine(m),
        same_choice(m, after),
        after.screen == m.screen,
        after.gate == m.gate,
        m.gate is Some && m.gate->0.state is Countdown ==> no_overlay(after),
    ensures
        gate_is_genuine(after),
{
    lemma_same_targets(m, after);
    if m.gate is Some {
        let inputs = choose|inputs: Seq<GateInput>| #[trigger] genuine_gate(m, inputs);
        assert(genuine_gate(after, inputs));
    }
}

proof fn lemma_gate_opens(m: AppModel, now_ns: u64)
    requires
        m.gate is None,
    ensures
        gate_is_genuine(confirmation_begun(m, now_ns)),
{
    let after = confirmation_begun(m, now_ns);
    if after.gate is Some {
        lemma_same_targets(m, after);
        let none = Seq::<GateInput>::empty();
        assert(genuine_gate(after, none));
    }
}

proof fn lemma_confirm_key_keeps_gate_genuine(m: AppModel, k: KeyCode, now_ns: u64)
    requires
        gate_is_genuine(m),
        m.screen == Screen::Confirm,
        no_overlay(m),
    ensures
        gate_is_genuine(key_on_confirm(m, k, now_ns)),
{
    let after = key_on_confirm(m, k, now_ns);
    if after.gate is Some {
        match k {
            KeyCode::Backspace => lemma_gate_moves(m, after, GateInput::Backspace),
            KeyCode::Char(c) => lemma_gate_moves(m, after, GateInput::Char(c)),
            KeyCode::Enter => {
                if after.gate == m.gate {
                    lemma_gate_stays(m, after);
                } else {
                    lemma_gate_moves(m, after, GateInput::Confirm);
                }
            },
            _ => lemma_gate_stays(m, after),
        }
    }
}

/// Key presses keep the arming gate genuine.
pub proof fn law_keys_keep_the_gate_genuine(m: AppModel, e: KeyEvent, now_ns: u64)
    requires
        gate_is_genuine(m),
    ensures
        gate_is_genuine(key_pressed(m, e, now_ns).0),
{
    let after = key_pressed(m, e, now_ns).0;
    if after.gate is Some {
        if e.code == KeyCode::Char('c') && e.control || m.show_help || m.confirm_quit
            || m.confirm_cancel_job is Some {
            lemma_gate_stays(m, after);
        } else {
            match m.screen {
                Screen::Confirm => lemma_confirm_key_keeps_gate_genuine(m, e.code, now_ns),
                Screen::Disks => lemma_gate_opens(m, now_ns),
                _ => {},
            }
        }
    }
}

/// Ticks keep the arming gate genuine.
pub proof fn law_ticks_keep_the_gate_genuine(
    m: AppModel,
    elapsed_ms: nat,
    now_ns: u64,
    unix_now: u64,
)
    requires
        gate_is_genuine(m),
    ensures
        gate_is_genuine(ticked_app(m, elapsed_ms, now_ns, unix_now)),
{
    let m1 = tick_animation(m, now_ns);
    lemma_gate_stays(m, m1);
    let m2 = tick_countdown(m1, elapsed_ms, now_ns);
    if m1.screen == Screen::Confirm && m1.gate is Some && !tick_releases(m1.gate->0, elapsed_ms) {
        lemma_gate_moves(m1, m2, GateInput::Tick(elapsed_ms));
    }
    let m3 = tick_jobs(m2, now_ns, unix_now);
    if m3.gate is Some {
        lemma_gate_stays(m2, m3);
    }
    lemma_gate_stays(m3, tick_quit(m3));
}

/// A fresh application has no gate, and a scan brings none about.
pub proof fn law_fresh_app_has_no_gate(
    simulation: bool,
    pid1: bool,
    sys: SystemModel,
    found: Result<Vec<(Disk, FirmwareSupport)>, CoreError>,
    now_ns: u64,
)
    ensures
        gate_is_genuine(refreshed(fresh_app(simulation, pid1, sys), found, now_ns)),
{
}

/// Where no ceremony is running, a scan leads to none.
pub proof fn law_scans_keep_the_gate_genuine(
    m: AppModel,
    found: Result<Vec<(Disk, FirmwareSupport)>, CoreError>,
    now_ns: u64,
)
    requires
        gate_is_genuine(m),
        m.screen != Screen::Confirm,
    ensures
        gate_is_genuine(refreshed(m, found, now_ns)),
{
}

/// A key press asks for a scan only where no ceremony is running, before and
/// after it.
pub proof fn law_scans_are_asked_for_outside_the_ceremony(m: AppModel, e: KeyEvent, now_ns: u64)
    requires
        key_pressed(m, e, now_ns).1 == Effect::Rescan || key_pressed(m, e, now_ns).1
            == Effect::Refresh,
    ensures
        m.screen != Screen::Confirm,
        key_pressed(m, e, now_ns).0.screen == Screen::Disks,
{
}

/// Jobs start only after the whole ceremony for exactly the disks that they
/// erase: the phrase with their number was typed and confirmed, and the
/// countdown ran out without an abort.
pub proof fn law_start_needs_the_ceremony(m: AppModel, elapsed_ms: nat)
    requires
        gate_is_genuine(m),
        tick_arms(m, elapsed_ms),
    ensures
        exists|inputs: Seq<GateInput>, j: int, k: int|
            #![trigger confirmed_at(m.targets().len(), inputs, j, k), ticked(inputs, j + 1, k)]
            confirmed_at(m.targets().len(), inputs, j, k) && ticked(inputs, j + 1, k)
                >= COUNTDOWN_MS,
{
    let inputs = choose|inputs: Seq<GateInput>| #[trigger] genuine_gate(m, inputs);
    let n = m.targets().len();
    let all = inputs.push(GateInput::Tick(elapsed_ms));
    assert(all.drop_last() =~= inputs);
    assert(tokens_released(new_gate(n), all) > 0);
    law_token_needs_the_ceremony(n, all);
    let (j, k) = choose|j: int, k: int|
        #![trigger confirmed_at(n, all, j, k), ticked(all, j + 1, k)]
        confirmed_at(n, all, j, k) && ticked(all, j + 1, k) >= COUNTDOWN_MS;
    assert(confirmed_at(m.targets().len(), all, j, k) && ticked(all, j + 1, k) >= COUNTDOWN_MS);
}

/// The methods picked by pressing the right arrow `n` times.
pub open spec fn steps_right(idx: nat, n: nat) -> nat
    decreases n,
{
    if n == 0 {
        idx
    } else {
        (steps_right(idx, (n - 1) as nat) + 1) % picker().len()
    }
}

proof fn lemma_steps_right(idx: nat, n: nat)
    requires
        idx < picker().len(),
    ensures
        steps_right(idx, n) == (idx + n) % picker().len(),
    decreases n,
{
    if n > 0 {
        lemma_steps_right(idx, (n - 1) as nat);
        assert(((idx + n - 1) % 17 + 1) % 17 == (idx + n) % 17);
    }
}

/// Method navigation wraps: a full cycle to the right returns to the start, and
/// a step to the left undoes one to the right.
pub proof fn law_method_navigation_wraps(m: AppModel, now_ns: u64)
    requires
        m.method_idx < picker().len(),
    ensures
        steps_right(m.method_idx, picker().len()) == m.method_idx,
        key_on_disks(m, KeyCode::Right, now_ns).0.method_idx == steps_right(m.method_idx, 1),
        key_on_disks(key_on_disks(m, KeyCode::Right, now_ns).0, KeyCode::Left, now_ns).0.method_idx
            == m.method_idx,
{
    lemma_steps_right(m.method_idx, 17);
    lemma_steps_right(m.method_idx, 1);
    assert((m.method_idx + 17) % 17 == m.method_idx);
    assert(((m.method_idx + 1) % 17 + 16) % 17 == m.method_idx);
}

/// The number of rounds stays between one and nine.
pub proof fn law_rounds_stay_in_range(m: AppModel, e: KeyEvent, now_ns: u64)
    requires
        1 <= m.rounds <= MAX_ROUNDS,
    ensures
        1 <= key_pressed(m, e, now_ns).0.rounds <= MAX_ROUNDS,
{
}

/// The verify, rounds and blank options do not change while a firmware method
/// is selected and stays so.
pub proof fn law_options_are_for_overwrites(m: AppModel, k: KeyCode, now_ns: u64)
    requires
        m.method() is Firmware,
        k != KeyCode::Left && k != KeyCode::Right,
        k != KeyCode::Char('[') && k != KeyCode::Char(']'),
        k != KeyCode::Char('<') && k != KeyCode::Char('>'),
    ensures
        ({
            let after = key_on_disks(m, k, now_ns).0;
            after.verify == m.verify && after.rounds == m.rounds && after.final_blank
                == m.final_blank
        }),
{
}

/// Control-C requests a quit and stops no job: with jobs running, or as the
/// init process, it only asks.
pub proof fn law_control_c_only_requests_quit(m: AppModel, now_ns: u64)
    ensures
        ({
            let e = KeyEvent { code: KeyCode::Char('c'), control: true };
            let after = key_pressed(m, e, now_ns).0;
            &&& after.jobs == m.jobs
            &&& m.running() || m.pid1 ==> after.confirm_quit && after.exit == m.exit
            &&& !m.running() && !m.pid1 ==> after.exit == Some(ExitAction::Quit)
        }),
{
}

/// The summary is shown only once no worker is running.
pub open spec fn summary_is_settled(m: AppModel) -> bool {
    m.screen == Screen::Summary ==> !m.running()
}

/// Key presses and ticks keep the summary settled.
pub proof fn law_summary_stays_settled(
    m: AppModel,
    e: KeyEvent,
    elapsed_ms: nat,
    now_ns: u64,
    unix_now: u64,
)
    requires
        summary_is_settled(m),
    ensures
        summary_is_settled(key_pressed(m, e, now_ns).0),
        summary_is_settled(ticked_app(m, elapsed_ms, now_ns, unix_now)),
{
    let pressed = key_pressed(m, e, now_ns).0;
    if pressed.screen == Screen::Summary && pressed.running() {
        let i = choose|i: int| 0 <= i < pressed.jobs.len() && !finished(#[trigger] pressed.jobs[i]);
        assert(!finished(m.jobs[i]));
    }
    let later = ticked_app(m, elapsed_ms, now_ns, unix_now);
    if later.screen == Screen::Summary && later.running() {
        let i = choose|i: int| 0 <= i < later.jobs.len() && !finished(#[trigger] later.jobs[i]);
        if m.screen == Screen::Summary {
            assert(!finished(m.jobs[i]));
        } else {
            assert(later.jobs[i].report is Some);
        }
    }
}

/// The application never leaves while a worker is running: not by a key, and
/// not by a tick.
pub proof fn law_exit_waits_for_workers(
    m: AppModel,
    e: KeyEvent,
    elapsed_ms: nat,
    now_ns: u64,
    unix_now: u64,
)
    requires
        summary_is_settled(m),
        m.running(),
        m.exit is None,
    ensures
        key_pressed(m, e, now_ns).0.exit is None,
        !tick_arms(m, elapsed_ms) ==> ticked_app(m, elapsed_ms, now_ns, unix_now).exit is None,
{
}

/// Settling to leave with workers running asks every one of them to stop.
pub proof fn law_leaving_cancels_every_job(m: AppModel, action: ExitAction, i: int)
    requires
        m.running(),
        0 <= i < m.jobs.len(),
    ensures
        quit_settled(m, action).jobs.len() == m.jobs.len(),
        quit_settled(m, action).jobs[i].cancel,
        quit_settled(m, action).exit == m.exit,
{
}

} // verus!
