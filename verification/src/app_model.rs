//! What the application state machine does, as functions from state to state.
//!
//! [`crate::app`] holds the machine itself.

use vstd::prelude::*;

use crate::algorithm::{registry, VerifyMode};
use crate::device::{Disk, DiskModel};
use crate::engine::{
    erase_job_spec, wipe_job_spec, HandleModel, Phase, ProgressModel, ReportModel, SpecModel, WipeSpec,
};
use crate::erase::{EraseJob, EraseModel};
use crate::error::CoreError;
use crate::firmware::{method_at, FirmwareMethod, FirmwareSupport};
use crate::job::{JobModel, WipeJob};
use crate::report::{session_of, SessionModel};
use crate::safety::{gate_after, gate_matches, new_gate, tick_releases, GateInput, GateModel};
use crate::speed::windowed;
use crate::sysinfo::SystemModel;
use crate::text::dec;

verus! {

/// The top-level screen currently shown.
#[derive(Clone, Copy, Debug, PartialEq, Eq, Structural)]
pub enum Screen {
    /// Disk selection and method picker.
    Disks,
    /// The arming ceremony (phrase + countdown).
    Confirm,
    /// Live wipe progress.
    Wiping,
    /// Post-session results.
    Summary,
}

/// A choice in the method picker: a software overwrite scheme (by index into
/// [`App::schemes`]) or a firmware/drive-internal erase command.
#[derive(Clone, Copy, Debug, PartialEq, Eq, Structural)]
pub enum MethodChoice {
    /// A software overwrite scheme, by index into [`App::schemes`].
    Overwrite(usize),
    /// A firmware/drive-internal erase command.
    Firmware(FirmwareMethod),
}

impl MethodChoice {
    /// True when this choice is a firmware method.
    pub fn is_firmware(&self) -> (b: bool)
        ensures
            b == (self is Firmware),
    {
        matches!(self, MethodChoice::Firmware(_))
    }
}

/// How the app should leave when it exits.
#[derive(Clone, Copy, Debug, PartialEq, Eq, Structural)]
pub enum ExitAction {
    /// Return to the shell (hosted mode).
    Quit,
    /// Reboot the machine (appliance mode).
    Reboot,
    /// Power the machine off (appliance mode).
    PowerOff,
}

/// A key.
#[derive(Clone, Copy, Debug, PartialEq, Eq, Structural)]
pub enum KeyCode {
    Up,
    Down,
    Left,
    Right,
    Enter,
    Esc,
    Backspace,
    Char(char),
    /// Any other key.
    Other,
}

/// A key press.
#[derive(Clone, Copy, Debug, PartialEq, Eq, Structural)]
pub struct KeyEvent {
    pub code: KeyCode,
    /// Whether the control key was held.
    pub control: bool,
}

/// What a key press asks of the program.
#[derive(Clone, Copy, Debug, PartialEq, Eq, Structural)]
pub enum Effect {
    /// Nothing.
    Nothing,
    /// Scan the disks and hand them to [`App::refresh_disks`].
    Refresh,
    /// Scan the disks and hand them to [`App::rescanned`].
    Rescan,
    /// Save the session report and hand the result to [`App::report_saved`].
    SaveReport,
}

/// A job that the program is to hand to a worker.
pub enum Launch {
    Wipe { disk: Disk, spec: WipeSpec, job: WipeJob },
    Firmware { disk: Disk, erase: EraseJob },
}

/// A [`Launch`] by its views.
pub enum LaunchModel {
    Wipe { disk: DiskModel, spec: SpecModel, job: JobModel },
    Firmware { disk: DiskModel, erase: EraseModel },
}

impl View for Launch {
    type V = LaunchModel;

    open spec fn view(&self) -> LaunchModel {
        match *self {
            Launch::Wipe { disk, spec, job } => LaunchModel::Wipe {
                disk: disk@,
                spec: spec@,
                job: job@,
            },
            Launch::Firmware { disk, erase } => LaunchModel::Firmware {
                disk: disk@,
                erase: erase@,
            },
        }
    }
}

impl Launch {
    /// The job is ready to run.
    pub open spec fn wf(&self) -> bool {
        match *self {
            Launch::Wipe { disk, spec, job } => job.wf(),
            Launch::Firmware { disk, erase } => erase.wf(),
        }
    }
}

/// How long a status message stays.
pub const STATUS_NS: u64 = 4_000_000_000;

/// The most rounds that can be chosen.
pub const MAX_ROUNDS: u32 = 9;

/// The state of the application.
pub struct AppModel {
    pub simulation: bool,
    pub pid1: bool,
    pub sys: SystemModel,
    pub disks: Seq<DiskModel>,
    pub cursor: nat,
    pub disk_cursor: nat,
    pub selected: Set<Seq<char>>,
    pub supports: Map<Seq<char>, FirmwareSupport>,
    pub method_idx: nat,
    pub verify: VerifyMode,
    pub rounds: u32,
    pub final_blank: bool,
    pub screen: Screen,
    pub gate: Option<GateModel>,
    pub jobs: Seq<HandleModel>,
    pub trackers: Seq<Seq<(u64, u64)>>,
    pub session_report: Option<SessionModel>,
    pub saved_report_path: Option<Seq<char>>,
    pub saved_report_fingerprint: Option<Seq<char>>,
    pub status: Option<(Seq<char>, u64)>,
    pub show_help: bool,
    pub confirm_quit: bool,
    pub confirm_cancel_job: Option<usize>,
    pub quitting: bool,
    pub pending_exit: Option<ExitAction>,
    pub exit: Option<ExitAction>,
    pub spinner_frame: usize,
}

/// The picker list: the overwrite schemes first, then the firmware methods of
/// the ATA and NVMe command sets.
pub open spec fn picker() -> Seq<MethodChoice> {
    Seq::new(
        17,
        |i: int|
            if i < 11 {
                MethodChoice::Overwrite(i as usize)
            } else {
                MethodChoice::Firmware(method_at(i - 11))
            },
    )
}

/// The name of the method `c`.
pub open spec fn choice_name(c: MethodChoice) -> Seq<char> {
    match c {
        MethodChoice::Overwrite(i) => registry()[i as int].name,
        MethodChoice::Firmware(m) => m.name_spec(),
    }
}

/// The description of the method `c`.
pub open spec fn choice_description(c: MethodChoice) -> Seq<char> {
    match c {
        MethodChoice::Overwrite(i) => registry()[i as int].description,
        MethodChoice::Firmware(m) => m.description_spec(),
    }
}

/// Whether a job has ended as far as its worker is concerned.
pub open spec fn finished(h: HandleModel) -> bool {
    h.report is Some || h.exited
}

/// Whether a phase is final.
pub open spec fn terminal(p: Phase) -> bool {
    p is Done || p is Failed || p is Cancelled
}

impl AppModel {
    /// The selected method.
    pub open spec fn method(self) -> MethodChoice {
        picker()[self.method_idx as int]
    }

    /// What an overwrite does, if one is selected.
    pub open spec fn spec(self) -> Option<SpecModel> {
        match self.method() {
            MethodChoice::Overwrite(i) => Some(
                SpecModel {
                    scheme: registry()[i as int],
                    rounds: self.rounds,
                    verify: self.verify,
                    final_blank: self.final_blank,
                },
            ),
            MethodChoice::Firmware(_) => None,
        }
    }

    /// Whether the selected method can erase the disk: any disk can be
    /// overwritten, a firmware method needs the support of the drive.
    pub open spec fn capable(self, d: DiskModel) -> bool {
        match self.method() {
            MethodChoice::Overwrite(_) => true,
            MethodChoice::Firmware(m) => self.supports.dom().contains(d.name)
                && self.supports[d.name].supports_spec(m),
        }
    }

    /// Whether the disk is selected and not locked.
    pub open spec fn is_selected(self, d: DiskModel) -> bool {
        self.selected.contains(d.name) && d.lock is None
    }

    /// All selected, unlocked disks.
    pub open spec fn selected_disks(self) -> Seq<DiskModel> {
        self.disks.filter(|d: DiskModel| self.is_selected(d))
    }

    /// The disks that the current method will erase.
    pub open spec fn targets(self) -> Seq<DiskModel> {
        self.disks.filter(|d: DiskModel| self.is_selected(d) && self.capable(d))
    }

    /// Whether a worker is still running.
    pub open spec fn running(self) -> bool {
        exists|i: int| 0 <= i < self.jobs.len() && !finished(#[trigger] self.jobs[i])
    }

    /// Whether the work of every target can be counted in bytes.
    pub open spec fn work_fits(self) -> bool {
        self.spec() matches Some(s) ==> forall|i: int|
            0 <= i < self.targets().len() ==> s.work(
                (#[trigger] self.targets()[i]).size_bytes as nat,
            ) <= u64::MAX
    }
}

/// The state with a status message.
pub open spec fn flashed(m: AppModel, msg: Seq<char>, now_ns: u64) -> AppModel {
    AppModel { status: Some((msg, now_ns)), ..m }
}

/// The state after a quit request: at once if nothing is running on a hosted
/// system, and else by way of a question.
pub open spec fn quit_requested(m: AppModel) -> AppModel {
    if m.running() || m.pid1 {
        AppModel { confirm_quit: true, ..m }
    } else {
        AppModel { exit: Some(ExitAction::Quit), ..m }
    }
}

/// Every job asked to stop.
pub open spec fn all_cancelled(jobs: Seq<HandleModel>) -> Seq<HandleModel> {
    jobs.map_values(|h: HandleModel| HandleModel { cancel: true, ..h })
}

/// The state after the operator has settled how to leave: workers are asked to
/// stop first.
pub open spec fn quit_settled(m: AppModel, action: ExitAction) -> AppModel {
    if m.running() {
        AppModel {
            confirm_quit: false,
            jobs: all_cancelled(m.jobs),
            quitting: true,
            pending_exit: Some(action),
            ..m
        }
    } else {
        AppModel { confirm_quit: false, exit: Some(action), ..m }
    }
}

/// The state with another method selected: an overwrite scheme brings its
/// verification policy along.
pub open spec fn method_picked(m: AppModel, idx: nat) -> AppModel {
    let p = AppModel { method_idx: idx, ..m };
    match p.method() {
        MethodChoice::Overwrite(i) => AppModel {
            verify: registry()[i as int].default_verify,
            ..p
        },
        MethodChoice::Firmware(_) => p,
    }
}

/// The state after the disk under the cursor was toggled; a locked one is not.
pub open spec fn toggled(m: AppModel, now_ns: u64) -> AppModel {
    if m.cursor >= m.disks.len() {
        m
    } else {
        let d = m.disks[m.cursor as int];
        match d.lock {
            Some(reason) => flashed(
                m,
                d.name + " is locked ("@ + reason.label_spec()
                    + ") — it cannot be wiped in this session"@,
                now_ns,
            ),
            None => AppModel {
                selected: if m.selected.contains(d.name) {
                    m.selected.remove(d.name)
                } else {
                    m.selected.insert(d.name)
                },
                ..m
            },
        }
    }
}

/// The state after the operator asked to start: the arming ceremony for the
/// targets, if there are any.
pub open spec fn confirmation_begun(m: AppModel, now_ns: u64) -> AppModel {
    let chosen = m.selected_disks().len();
    let targets = m.targets().len();
    if chosen == 0 {
        flashed(m, "select at least one disk first (space toggles)"@, now_ns)
    } else if targets == 0 {
        flashed(
            m,
            "no selected disk supports "@ + choice_name(m.method()) + " — pick another method"@,
            now_ns,
        )
    } else {
        let noted = if targets < chosen {
            flashed(
                m,
                dec((chosen - targets) as nat) + " selected disk(s) don't support "@ + choice_name(
                    m.method(),
                ) + " and will be skipped"@,
                now_ns,
            )
        } else {
            m
        };
        AppModel { gate: Some(new_gate(targets)), screen: Screen::Confirm, ..noted }
    }
}

/// A key on the disks screen.
pub open spec fn key_on_disks(m: AppModel, k: KeyCode, now_ns: u64) -> (AppModel, Effect) {
    let overwrites = m.method() is Overwrite;
    match k {
        KeyCode::Up | KeyCode::Char('k') => (
            AppModel {
                cursor: if m.cursor > 0 {
                    (m.cursor - 1) as nat
                } else {
                    0
                },
                ..m
            },
            Effect::Nothing,
        ),
        KeyCode::Down | KeyCode::Char('j') => (
            AppModel {
                cursor: if m.disks.len() == 0 {
                    m.cursor
                } else if m.cursor + 1 < m.disks.len() {
                    m.cursor + 1
                } else {
                    (m.disks.len() - 1) as nat
                },
                ..m
            },
            Effect::Nothing,
        ),
        KeyCode::Char(' ') | KeyCode::Enter => (toggled(m, now_ns), Effect::Nothing),
        KeyCode::Left | KeyCode::Char('[') | KeyCode::Char('<') => (
            method_picked(m, ((m.method_idx + picker().len() - 1) % picker().len() as int) as nat),
            Effect::Nothing,
        ),
        KeyCode::Right | KeyCode::Char(']') | KeyCode::Char('>') => (
            method_picked(m, (m.method_idx + 1) % picker().len()),
            Effect::Nothing,
        ),
        // The verify / rounds / blank options apply to overwrite only.
        KeyCode::Char('v') => (
            AppModel { verify: if overwrites { m.verify.next() } else { m.verify }, ..m },
            Effect::Nothing,
        ),
        KeyCode::Char('+') | KeyCode::Char('=') => (
            AppModel {
                rounds: if overwrites && m.rounds < MAX_ROUNDS {
                    (m.rounds + 1) as u32
                } else {
                    m.rounds
                },
                ..m
            },
            Effect::Nothing,
        ),
        KeyCode::Char('-') => (
            AppModel {
                rounds: if overwrites && m.rounds > 1 {
                    (m.rounds - 1) as u32
                } else {
                    m.rounds
                },
                ..m
            },
            Effect::Nothing,
        ),
        KeyCode::Char('b') => (
            AppModel {
                final_blank: if overwrites {
                    !m.final_blank
                } else {
                    m.final_blank
                },
                ..m
            },
            Effect::Nothing,
        ),
        KeyCode::Char('r') => (m, Effect::Rescan),
        KeyCode::Char('s') => (confirmation_begun(m, now_ns), Effect::Nothing),
        KeyCode::Char('?') => (AppModel { show_help: true, ..m }, Effect::Nothing),
        KeyCode::Char('q') | KeyCode::Esc => (quit_requested(m), Effect::Nothing),
        _ => (m, Effect::Nothing),
    }
}

/// Whether the arming countdown is running.
pub open spec fn counting_down(m: AppModel) -> bool {
    m.screen == Screen::Confirm && m.gate is Some && m.gate->0.state is Countdown
}

/// The state after the arming countdown was aborted.
pub open spec fn countdown_aborted(m: AppModel, now_ns: u64) -> AppModel {
    flashed(AppModel { gate: None, screen: Screen::Disks, ..m }, "arming aborted"@, now_ns)
}

/// A key on the confirm screen: any key aborts a running countdown.
pub open spec fn key_on_confirm(m: AppModel, k: KeyCode, now_ns: u64) -> AppModel {
    match m.gate {
        None => AppModel { screen: Screen::Disks, ..m },
        Some(g) => if g.state is Countdown {
            countdown_aborted(m, now_ns)
        } else {
            match k {
                KeyCode::Esc => AppModel { gate: None, screen: Screen::Disks, ..m },
                KeyCode::Backspace => AppModel {
                    gate: Some(gate_after(g, GateInput::Backspace)),
                    ..m
                },
                KeyCode::Enter => if gate_matches(g) {
                    AppModel { gate: Some(gate_after(g, GateInput::Confirm)), ..m }
                } else {
                    flashed(m, "phrase does not match — type it exactly"@, now_ns)
                },
                KeyCode::Char(c) => AppModel { gate: Some(gate_after(g, GateInput::Char(c))), ..m },
                _ => m,
            }
        },
    }
}

/// A key on the wiping screen.
pub open spec fn key_on_wiping(m: AppModel, k: KeyCode) -> AppModel {
    match k {
        KeyCode::Up | KeyCode::Char('k') => AppModel {
            cursor: if m.cursor > 0 {
                (m.cursor - 1) as nat
            } else {
                0
            },
            ..m
        },
        KeyCode::Down | KeyCode::Char('j') => AppModel {
            cursor: if m.jobs.len() == 0 {
                m.cursor
            } else if m.cursor + 1 < m.jobs.len() {
                m.cursor + 1
            } else {
                (m.jobs.len() - 1) as nat
            },
            ..m
        },
        KeyCode::Char('c') => if m.cursor < m.jobs.len() && !terminal(
            m.jobs[m.cursor as int].progress.phase,
        ) {
            AppModel { confirm_cancel_job: Some(m.cursor as usize), ..m }
        } else {
            m
        },
        KeyCode::Char('?') => AppModel { show_help: true, ..m },
        KeyCode::Char('q') | KeyCode::Esc => quit_requested(m),
        _ => m,
    }
}

/// A key on the summary screen.
pub open spec fn key_on_summary(m: AppModel, k: KeyCode) -> (AppModel, Effect) {
    match k {
        KeyCode::Char('w') => (
            m,
            if m.session_report is Some {
                Effect::SaveReport
            } else {
                Effect::Nothing
            },
        ),
        KeyCode::Char('n') => (
            AppModel {
                jobs: Seq::empty(),
                trackers: Seq::empty(),
                selected: Set::empty(),
                session_report: None,
                saved_report_path: None,
                saved_report_fingerprint: None,
                cursor: 0,
                screen: Screen::Disks,
                ..m
            },
            Effect::Refresh,
        ),
        KeyCode::Char('q') | KeyCode::Esc => (quit_requested(m), Effect::Nothing),
        KeyCode::Char('p') => (
            AppModel { exit: if m.pid1 { Some(ExitAction::PowerOff) } else { m.exit }, ..m },
            Effect::Nothing,
        ),
        KeyCode::Char('r') => (
            AppModel { exit: if m.pid1 { Some(ExitAction::Reboot) } else { m.exit }, ..m },
            Effect::Nothing,
        ),
        _ => (m, Effect::Nothing),
    }
}

/// A key on the question whether to quit.
pub open spec fn key_on_quit_modal(m: AppModel, k: KeyCode) -> AppModel {
    match k {
        KeyCode::Char('y') => if !m.pid1 {
            quit_settled(m, ExitAction::Quit)
        } else {
            m
        },
        KeyCode::Char('r') => if m.pid1 {
            quit_settled(m, ExitAction::Reboot)
        } else {
            m
        },
        KeyCode::Char('p') => if m.pid1 {
            quit_settled(m, ExitAction::PowerOff)
        } else {
            m
        },
        KeyCode::Esc | KeyCode::Char('n') => AppModel { confirm_quit: false, ..m },
        _ => m,
    }
}

/// A key on the question whether to cancel job `idx`.
pub open spec fn key_on_cancel_modal(m: AppModel, idx: usize, k: KeyCode, now_ns: u64) -> AppModel {
    match k {
        KeyCode::Char('y') => {
            let closed = AppModel { confirm_cancel_job: None, ..m };
            if idx < m.jobs.len() {
                flashed(
                    AppModel {
                        jobs: m.jobs.update(
                            idx as int,
                            HandleModel { cancel: true, ..m.jobs[idx as int] },
                        ),
                        ..closed
                    },
                    "cancelling wipe of "@ + m.jobs[idx as int].disk.name,
                    now_ns,
                )
            } else {
                closed
            }
        },
        KeyCode::Esc | KeyCode::Char('n') => AppModel { confirm_cancel_job: None, ..m },
        _ => m,
    }
}

/// The state after a key press, and what it asks of the program. Control-C is
/// always a quit request, which aborts a running countdown as any key does;
/// help closes on any key; the questions come before the screens.
pub open spec fn key_pressed(m: AppModel, e: KeyEvent, now_ns: u64) -> (AppModel, Effect) {
    if e.code == KeyCode::Char('c') && e.control {
        (
            quit_requested(
                if counting_down(m) {
                    countdown_aborted(m, now_ns)
                } else {
                    m
                },
            ),
            Effect::Nothing,
        )
    } else if m.show_help {
        (AppModel { show_help: false, ..m }, Effect::Nothing)
    } else if m.confirm_quit {
        (key_on_quit_modal(m, e.code), Effect::Nothing)
    } else if m.confirm_cancel_job is Some {
        (key_on_cancel_modal(m, m.confirm_cancel_job->0, e.code, now_ns), Effect::Nothing)
    } else {
        match m.screen {
            Screen::Disks => key_on_disks(m, e.code, now_ns),
            Screen::Confirm => (key_on_confirm(m, e.code, now_ns), Effect::Nothing),
            Screen::Wiping => (key_on_wiping(m, e.code), Effect::Nothing),
            Screen::Summary => key_on_summary(m, e.code),
        }
    }
}

/// The job that the current method starts on a disk.
pub open spec fn launch_of(m: AppModel, d: DiskModel) -> LaunchModel {
    match m.method() {
        MethodChoice::Overwrite(_) => LaunchModel::Wipe {
            disk: d,
            spec: m.spec()->0,
            job: wipe_job_spec(d, m.spec()->0),
        },
        MethodChoice::Firmware(f) => LaunchModel::Firmware { disk: d, erase: erase_job_spec(d, f) },
    }
}

/// The first progress of a launched job.
pub open spec fn launch_progress(l: LaunchModel) -> ProgressModel {
    match l {
        LaunchModel::Wipe { disk, spec, job } => job.progress,
        LaunchModel::Firmware { disk, erase } => erase.progress,
    }
}

/// The jobs that start on the targets.
pub open spec fn launches_of(m: AppModel) -> Seq<LaunchModel> {
    m.targets().map_values(|d: DiskModel| launch_of(m, d))
}

/// The handle of a job that has just started.
pub open spec fn fresh_handle(m: AppModel, d: DiskModel) -> HandleModel {
    HandleModel {
        disk: d,
        progress: launch_progress(launch_of(m, d)),
        cancel: false,
        exited: false,
        report: None,
    }
}

/// The state after the ceremony was completed: a job per target, or a message
/// where there is no target.
pub open spec fn jobs_started(m: AppModel, now_ns: u64) -> AppModel {
    let started = AppModel {
        gate: None,
        jobs: m.targets().map_values(|d: DiskModel| fresh_handle(m, d)),
        trackers: m.targets().map_values(|d: DiskModel| Seq::<(u64, u64)>::empty()),
        ..m
    };
    if m.targets().len() == 0 {
        flashed(
            AppModel { screen: Screen::Disks, ..started },
            "no jobs could be started"@,
            now_ns,
        )
    } else {
        AppModel { cursor: 0, disk_cursor: m.cursor, screen: Screen::Wiping, ..started }
    }
}

/// Whether a tick of `elapsed_ms` completes the arming ceremony.
pub open spec fn tick_arms(m: AppModel, elapsed_ms: nat) -> bool {
    m.screen == Screen::Confirm && m.gate is Some && tick_releases(m.gate->0, elapsed_ms)
}

/// The state after the animation has advanced and an old message has gone.
pub open spec fn tick_animation(m: AppModel, now_ns: u64) -> AppModel {
    AppModel {
        spinner_frame: m.spinner_frame.wrapping_add(1),
        status: match m.status {
            Some((_, at)) => if now_ns - at > STATUS_NS {
                None
            } else {
                m.status
            },
            None => None,
        },
        ..m
    }
}

/// The state after the arming countdown has advanced.
pub open spec fn tick_countdown(m: AppModel, elapsed_ms: nat, now_ns: u64) -> AppModel {
    if m.screen == Screen::Confirm && m.gate is Some {
        if tick_releases(m.gate->0, elapsed_ms) {
            jobs_started(m, now_ns)
        } else {
            AppModel { gate: Some(gate_after(m.gate->0, GateInput::Tick(elapsed_ms))), ..m }
        }
    } else {
        m
    }
}

/// The throughput windows with a sample of every job that is under way.
pub open spec fn sampled(
    trackers: Seq<Seq<(u64, u64)>>,
    jobs: Seq<HandleModel>,
    now_ns: u64,
) -> Seq<Seq<(u64, u64)>> {
    Seq::new(
        trackers.len(),
        |i: int|
            if i < jobs.len() && !terminal(jobs[i].progress.phase) {
                windowed(trackers[i].push((now_ns, jobs[i].progress.work_done)), now_ns)
            } else {
                trackers[i]
            },
    )
}

/// Whether there are jobs and each has left its report.
pub open spec fn all_reported(jobs: Seq<HandleModel>) -> bool {
    jobs.len() > 0 && forall|i: int| 0 <= i < jobs.len() ==> (#[trigger] jobs[i]).report is Some
}

/// The reports that jobs have left.
pub open spec fn reports_of(jobs: Seq<HandleModel>) -> Seq<ReportModel> {
    jobs.map_values(|h: HandleModel| h.report->0)
}

/// The state after the running jobs were looked at: once all have reported, the
/// session is summed up.
pub open spec fn tick_jobs(m: AppModel, now_ns: u64, unix_now: u64) -> AppModel {
    if m.screen == Screen::Wiping {
        let s = AppModel { trackers: sampled(m.trackers, m.jobs, now_ns), ..m };
        if all_reported(m.jobs) && !m.quitting {
            AppModel {
                session_report: Some(
                    session_of(m.sys, m.simulation, reports_of(m.jobs), unix_now),
                ),
                cursor: 0,
                screen: Screen::Summary,
                ..s
            }
        } else {
            s
        }
    } else {
        m
    }
}

/// The state after a deferred quit was looked at: it takes place once the
/// workers have wound down.
pub open spec fn tick_quit(m: AppModel) -> AppModel {
    if m.quitting && !m.running() {
        AppModel {
            exit: if m.pending_exit is Some {
                m.pending_exit
            } else {
                Some(ExitAction::Quit)
            },
            pending_exit: None,
            ..m
        }
    } else {
        m
    }
}

/// The state after a tick.
pub open spec fn ticked_app(m: AppModel, elapsed_ms: nat, now_ns: u64, unix_now: u64) -> AppModel {
    let m1 = tick_animation(m, now_ns);
    let m2 = tick_countdown(m1, elapsed_ms, now_ns);
    let m3 = tick_jobs(m2, now_ns, unix_now);
    tick_quit(m3)
}

/// The firmware support per disk name; of several disks of one name the last
/// counts.
pub open spec fn support_map(s: Seq<(String, FirmwareSupport)>) -> Map<Seq<char>, FirmwareSupport>
    decreases s.len(),
{
    if s.len() == 0 {
        Map::empty()
    } else {
        support_map(s.drop_last()).insert(s.last().0@, s.last().1)
    }
}

/// The disks of a scan, and the support of each by name.
pub open spec fn scan_supports(found: Seq<(Disk, FirmwareSupport)>) -> Map<
    Seq<char>,
    FirmwareSupport,
>
    decreases found.len(),
{
    if found.len() == 0 {
        Map::empty()
    } else {
        scan_supports(found.drop_last()).insert(found.last().0.name@, found.last().1)
    }
}

/// The state after a scan that found these disks: selections of disks that are
/// still present stay.
pub open spec fn disks_found(m: AppModel, found: Seq<(Disk, FirmwareSupport)>) -> AppModel {
    let disks = found.map_values(|p: (Disk, FirmwareSupport)| p.0@);
    AppModel {
        disks,
        supports: scan_supports(found),
        selected: m.selected.filter(
            |n: Seq<char>| exists|i: int| 0 <= i < disks.len() && (#[trigger] disks[i]).name == n,
        ),
        cursor: if m.cursor < disks.len() {
            m.cursor
        } else if disks.len() > 0 {
            (disks.len() - 1) as nat
        } else {
            0
        },
        ..m
    }
}

/// The state after a scan.
pub open spec fn refreshed(
    m: AppModel,
    found: Result<Vec<(Disk, FirmwareSupport)>, CoreError>,
    now_ns: u64,
) -> AppModel {
    match found {
        Ok(list) => disks_found(m, list@),
        Err(e) => flashed(m, "disk scan failed: "@ + e.message_spec(), now_ns),
    }
}

/// The state after no worker could be started for job `idx`. Where that was the
/// last job, the disks screen is back as it was.
pub open spec fn not_started(m: AppModel, idx: int, error: Seq<char>, now_ns: u64) -> AppModel {
    let less = AppModel { jobs: m.jobs.remove(idx), trackers: m.trackers.remove(idx), ..m };
    if less.jobs.len() == 0 {
        flashed(
            AppModel { cursor: m.disk_cursor, screen: Screen::Disks, ..less },
            "no jobs could be started"@,
            now_ns,
        )
    } else {
        flashed(
            less,
            "failed to start "@ + m.jobs[idx].disk.name + ": "@ + ("I/O error: "@ + error),
            now_ns,
        )
    }
}

/// The state before the first scan: the recommended scheme, one round, nothing
/// selected.
pub open spec fn fresh_app(simulation: bool, pid1: bool, sys: SystemModel) -> AppModel {
    AppModel {
        simulation,
        pid1,
        sys,
        disks: Seq::empty(),
        cursor: 0,
        disk_cursor: 0,
        selected: Set::empty(),
        supports: Map::empty(),
        method_idx: 0,
        verify: VerifyMode::LastPass,
        rounds: 1,
        final_blank: false,
        screen: Screen::Disks,
        gate: None,
        jobs: Seq::empty(),
        trackers: Seq::empty(),
        session_report: None,
        saved_report_path: None,
        saved_report_fingerprint: None,
        status: None,
        show_help: false,
        confirm_quit: false,
        confirm_cancel_job: None,
        quitting: false,
        pending_exit: None,
        exit: None,
        spinner_frame: 0,
    }
}

/// Jobs to launch by their views.
pub open spec fn launch_models(v: Seq<Launch>) -> Seq<LaunchModel> {
    v.map_values(|l: Launch| l@)
}

/// Two states that agree on disks, selection, support and method.
pub open spec fn same_choice(a: AppModel, b: AppModel) -> bool {
    &&& a.disks == b.disks
    &&& a.selected == b.selected
    &&& a.supports == b.supports
    &&& a.method_idx == b.method_idx
}

proof fn lemma_same_filter(a: AppModel, b: AppModel, s: Seq<DiskModel>)
    requires
        same_choice(a, b),
    ensures
        s.filter(|d: DiskModel| a.is_selected(d) && a.capable(d)) == s.filter(
            |d: DiskModel| b.is_selected(d) && b.capable(d),
        ),
    decreases s.len(),
{
    reveal(Seq::filter);
    if s.len() > 0 {
        lemma_same_filter(a, b, s.drop_last());
    }
}

/// The targets depend on disks, selection, support and method alone.
pub proof fn lemma_same_targets(a: AppModel, b: AppModel)
    requires
        same_choice(a, b),
    ensures
        a.targets() == b.targets(),
{
    lemma_same_filter(a, b, a.disks);
}

/// No locked disk is ever a target, whatever the selection says; and a firmware
/// method targets only disks that support it.
pub proof fn law_targets_are_unlocked_and_capable(m: AppModel, i: int)
    requires
        0 <= i < m.targets().len(),
    ensures
        m.targets()[i].lock is None,
        m.selected.contains(m.targets()[i].name),
        m.capable(m.targets()[i]),
{
    let keep = |d: DiskModel| m.is_selected(d) && m.capable(d);
    m.disks.lemma_filter_pred(keep, i);
}

/// Whether a disk of this name is among the disks.
pub open spec fn is_present(disks: Seq<Disk>, name: Seq<char>) -> bool {
    exists|i: int| 0 <= i < disks.len() && (#[trigger] disks[i]).name@ == name
}

} // verus!
