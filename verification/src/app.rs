//! Application state machine. Pure logic, no terminal I/O.
//!
//! [`App::on_key`] and [`App::on_tick`] take what happened and change the state;
//! what they return is for the program to do: scan disks, save the report, hand
//! jobs to workers.

use vstd::prelude::*;

use crate::algorithm::{all_schemes, registry, Scheme, VerifyMode};
use crate::app_model::{
    all_cancelled, all_reported, choice_description, choice_name, confirmation_begun, countdown_aborted,
    counting_down, disks_found, finished, flashed, fresh_app, fresh_handle, is_present, jobs_started, key_on_cancel_modal,
    key_on_confirm, key_on_disks, key_on_quit_modal, key_on_summary, key_on_wiping, key_pressed, launch_models,
    launch_of, launches_of, law_targets_are_unlocked_and_capable, lemma_same_targets, method_picked,
    not_started, picker, quit_requested, quit_settled, refreshed, reports_of, sampled, scan_supports, support_map,
    tick_animation, tick_arms, tick_countdown, tick_jobs, tick_quit, ticked_app, toggled, AppModel, LaunchModel,
};
use crate::device::{Disk, DiskModel};
use crate::engine::{spawn_firmware, spawn_wipe, text_model, HandleModel, JobHandle, JobReport, WipeSpec};
use crate::error::CoreError;
use crate::firmware::{nth_method, FirmwareMethod, FirmwareSupport};
use crate::linux::is_listed;
use crate::report::{job_models, SessionReport};
use crate::safety::{ArmToken, SafetyGate};
use crate::scan::texts;
use crate::speed::SpeedTracker;
use crate::sysinfo::SystemInfo;
use crate::text::{dec, push_dec, push_text, same};

pub use crate::app_model::{
    Effect, ExitAction, KeyCode, KeyEvent, Launch, MethodChoice, Screen, MAX_ROUNDS, STATUS_NS,
};

verus! {

/// The entire application state. Pure data + logic; rendering lives elsewhere.
/// Most fields are public so tests and the renderer can read them, but they are
/// only mutated through the `on_key` / `on_tick` methods and their kin.
pub struct App {
    /// True when running against simulated disks.
    pub simulation: bool,
    /// Running as init on the live ISO: quit becomes reboot/power-off.
    pub pid1: bool,
    /// Host hardware summary.
    pub sys: SystemInfo,
    /// The currently enumerated disks.
    pub disks: Vec<Disk>,
    /// Index of the highlighted row (disk list or job list).
    pub cursor: usize,
    /// Index of the disk that was highlighted when the jobs started.
    pub disk_cursor: usize,
    /// Names of disks toggled on for erasure, each once.
    pub selected: Vec<String>,
    /// Firmware capability per disk name, refreshed with the disk list.
    pub supports: Vec<(String, FirmwareSupport)>,
    /// All overwrite schemes (firmware methods are appended in `methods`).
    pub schemes: Vec<Scheme>,
    /// Overwrite schemes followed by the firmware methods: the picker order.
    pub methods: Vec<MethodChoice>,
    /// Index of the selected method in `methods`.
    pub method_idx: usize,
    /// Verify mode (overwrite methods only).
    pub verify: VerifyMode,
    /// Number of scheme rounds (overwrite methods only).
    pub rounds: u32,
    /// Whether to append a final zero-blanking pass (overwrite only).
    pub final_blank: bool,
    /// The active screen.
    pub screen: Screen,
    /// The arming gate while on the confirm screen.
    pub gate: Option<SafetyGate>,
    /// Running/finished job handles, one per target disk.
    pub jobs: Vec<JobHandle>,
    /// Throughput trackers paired with `jobs`.
    pub trackers: Vec<SpeedTracker>,
    /// The assembled session report once all jobs finish.
    pub session_report: Option<SessionReport>,
    /// Path of the written report, if saved.
    pub saved_report_path: Option<String>,
    /// Fingerprint of the Ed25519 key that signed the saved report.
    pub saved_report_fingerprint: Option<String>,
    /// Transient status message and when it was set.
    pub status: Option<(String, u64)>,
    /// Whether the help overlay is open.
    pub show_help: bool,
    /// Whether the quit-confirmation modal is open.
    pub confirm_quit: bool,
    /// Index of the job pending a cancel confirmation, if any.
    pub confirm_cancel_job: Option<usize>,
    /// Set while waiting for cancelled jobs to wind down before exiting.
    pub quitting: bool,
    /// How to leave once they have.
    pub pending_exit: Option<ExitAction>,
    /// Set to request the event loop exit with the given action.
    pub exit: Option<ExitAction>,
    /// Animation frame counter for spinners/pulses.
    pub spinner_frame: usize,
}

/// The disks of a list by their views.
pub open spec fn disk_models(disks: Seq<Disk>) -> Seq<DiskModel> {
    disks.map_values(|d: Disk| d@)
}

/// The jobs of a list by their views.
pub open spec fn handle_models(jobs: Seq<JobHandle>) -> Seq<HandleModel> {
    jobs.map_values(|h: JobHandle| h@)
}

/// The throughput windows of a list by their views.
pub open spec fn tracker_models(trackers: Seq<SpeedTracker>) -> Seq<Seq<(u64, u64)>> {
    trackers.map_values(|t: SpeedTracker| t@)
}

impl View for App {
    type V = AppModel;

    open spec fn view(&self) -> AppModel {
        AppModel {
            simulation: self.simulation,
            pid1: self.pid1,
            sys: self.sys@,
            disks: disk_models(self.disks@),
            cursor: self.cursor as nat,
            disk_cursor: self.disk_cursor as nat,
            selected: texts(self.selected@).to_set(),
            supports: support_map(self.supports@),
            method_idx: self.method_idx as nat,
            verify: self.verify,
            rounds: self.rounds,
            final_blank: self.final_blank,
            screen: self.screen,
            gate: match self.gate {
                Some(g) => Some(g@),
                None => None,
            },
            jobs: handle_models(self.jobs@),
            trackers: tracker_models(self.trackers@),
            session_report: match self.session_report {
                Some(r) => Some(r@),
                None => None,
            },
            saved_report_path: text_model(self.saved_report_path),
            saved_report_fingerprint: text_model(self.saved_report_fingerprint),
            status: match self.status {
                Some((s, at)) => Some((s@, at)),
                None => None,
            },
            show_help: self.show_help,
            confirm_quit: self.confirm_quit,
            confirm_cancel_job: self.confirm_cancel_job,
            quitting: self.quitting,
            pending_exit: self.pending_exit,
            exit: self.exit,
            spinner_frame: self.spinner_frame,
        }
    }
}

impl App {
    /// What holds of the state between two events.
    pub open spec fn wf(&self) -> bool {
        &&& self.schemes@.map_values(|s: Scheme| s@) == registry()
        &&& self.methods@ == picker()
        &&& self.method_idx < 17
        &&& 1 <= self.rounds <= MAX_ROUNDS
        &&& self.cursor < usize::MAX
        &&& self.disk_cursor < usize::MAX
        &&& texts(self.selected@).no_duplicates()
        &&& self.trackers@.len() == self.jobs@.len()
    }

    /// The currently selected method.
    pub fn current_method(&self) -> (c: MethodChoice)
        requires
            self.wf(),
        ensures
            c == self@.method(),
            c matches MethodChoice::Overwrite(i) ==> i < 11,
    {
        self.methods[self.method_idx]
    }

    /// The overwrite scheme for the current method, or `None` if a firmware
    /// method is selected.
    pub fn current_scheme(&self) -> (r: Option<&Scheme>)
        requires
            self.wf(),
        ensures
            r is Some <==> self@.method() is Overwrite,
            r matches Some(s) ==> s@ == registry()[self@.method()->Overwrite_0 as int],
    {
        match self.current_method() {
            MethodChoice::Overwrite(i) => {
                proof {
                    self.lemma_scheme(i as int);
                }
                Some(&self.schemes[i])
            },
            MethodChoice::Firmware(_) => None,
        }
    }

    proof fn lemma_scheme(&self, i: int)
        requires
            self.wf(),
            0 <= i < 11,
        ensures
            self.schemes@.len() == 11,
            self.schemes@[i]@ == registry()[i],
    {
        let views = self.schemes@.map_values(|s: Scheme| s@);
        assert(views.len() == self.schemes@.len());
        assert(views[i] == self.schemes@[i]@);
    }

    /// The firmware method for the current selection, or `None` for overwrite.
    pub fn current_firmware(&self) -> (r: Option<FirmwareMethod>)
        requires
            self.wf(),
        ensures
            r is Some <==> self@.method() is Firmware,
            r matches Some(m) ==> self@.method() == MethodChoice::Firmware(m),
    {
        match self.current_method() {
            MethodChoice::Firmware(m) => Some(m),
            MethodChoice::Overwrite(_) => None,
        }
    }

    /// True when the selected method is a firmware erase.
    pub fn is_firmware(&self) -> (b: bool)
        requires
            self.wf(),
        ensures
            b == (self@.method() is Firmware),
    {
        self.current_method().is_firmware()
    }

    /// Human-readable name of the current method.
    pub fn method_name(&self) -> (s: &str)
        requires
            self.wf(),
        ensures
            s@ == choice_name(self@.method()),
    {
        match self.current_method() {
            MethodChoice::Overwrite(i) => {
                proof {
                    self.lemma_scheme(i as int);
                }
                self.schemes[i].name
            },
            MethodChoice::Firmware(m) => m.name(),
        }
    }

    /// One-paragraph description of the current method.
    pub fn method_description(&self) -> (s: &str)
        requires
            self.wf(),
        ensures
            s@ == choice_description(self@.method()),
    {
        match self.current_method() {
            MethodChoice::Overwrite(i) => {
                proof {
                    self.lemma_scheme(i as int);
                }
                self.schemes[i].description
            },
            MethodChoice::Firmware(m) => m.description(),
        }
    }

    /// The overwrite `WipeSpec` for the current method, or `None` for firmware.
    pub fn spec(&self) -> (r: Option<WipeSpec>)
        requires
            self.wf(),
        ensures
            r is Some <==> self@.spec() is Some,
            r matches Some(s) ==> Some(s@) == self@.spec(),
    {
        match self.current_scheme() {
            Some(scheme) => Some(
                WipeSpec {
                    scheme: scheme.clone(),
                    rounds: self.rounds,
                    verify: self.verify,
                    final_blank: self.final_blank,
                },
            ),
            None => None,
        }
    }

    /// The firmware support of the disk `name`, if it was probed.
    pub fn support_of(&self, name: &str) -> (r: Option<FirmwareSupport>)
        ensures
            r is Some <==> self@.supports.dom().contains(name@),
            r matches Some(s) ==> s == self@.supports[name@],
    {
        let mut i: usize = self.supports.len();
        let ghost all = self.supports@;
        assert(all.take(i as int) =~= all);
        while i > 0
            invariant
                i <= all.len(),
                all == self.supports@,
                support_map(all).dom().contains(name@) <==> support_map(
                    all.take(i as int),
                ).dom().contains(name@),
                support_map(all).dom().contains(name@) ==> support_map(all)[name@] == support_map(
                    all.take(i as int),
                )[name@],
            decreases i,
        {
            i -= 1;
            proof {
                assert(all.take(i + 1).drop_last() =~= all.take(i as int));
                assert(all.take(i + 1).last() == all[i as int]);
            }
            if same(self.supports[i].0.as_str(), name) {
                return Some(self.supports[i].1);
            }
        }
        None
    }

    /// Does `disk` support the currently selected firmware method? Always true
    /// for overwrite methods (every disk can be overwritten).
    pub fn disk_supports_current(&self, disk: &Disk) -> (b: bool)
        requires
            self.wf(),
        ensures
            b == self@.capable(disk@),
    {
        match self.current_firmware() {
            None => true,
            Some(method) => match self.support_of(disk.name.as_str()) {
                Some(s) => s.supports(method),
                None => false,
            },
        }
    }

    /// Whether the disk is selected and not locked.
    pub fn is_selected(&self, disk: &Disk) -> (b: bool)
        ensures
            b == self@.is_selected(disk@),
    {
        !disk.is_locked() && is_listed(&self.selected, disk.name.as_str())
    }

    /// All selected, unlocked disks.
    pub fn selected_disks(&self) -> (r: Vec<&Disk>)
        ensures
            r@.map_values(|d: &Disk| d@) == self@.selected_disks(),
    {
        let mut r: Vec<&Disk> = Vec::new();
        let ghost keep = |d: DiskModel| self@.is_selected(d);
        let ghost all = self@.disks;
        let mut i: usize = 0;
        proof {
            reveal(Seq::filter);
            assert(all.take(0) =~= Seq::<DiskModel>::empty());
            assert(r@.map_values(|d: &Disk| d@) =~= all.take(0).filter(keep));
        }
        while i < self.disks.len()
            invariant
                i <= self.disks@.len(),
                all == disk_models(self.disks@),
                all == self@.disks,
                keep == (|d: DiskModel| self@.is_selected(d)),
                r@.map_values(|d: &Disk| d@) == all.take(i as int).filter(keep),
            decreases self.disks@.len() - i,
        {
            let ghost before = r@;
            let d = &self.disks[i];
            let on = self.is_selected(d);
            if on {
                r.push(d);
            }
            proof {
                reveal(Seq::filter);
                let next = all.take(i + 1);
                assert(next.drop_last() =~= all.take(i as int));
                assert(next.last() == d@);
                assert(keep(d@) == on);
                if on {
                    assert(r@.map_values(|d: &Disk| d@) =~= before.map_values(
                        |d: &Disk| d@,
                    ).push(d@));
                }
            }
            i += 1;
        }
        assert(all.take(i as int) =~= all);
        r
    }

    /// The disks that will actually be erased by the current method: selected,
    /// unlocked, and (for firmware) capable of the chosen command.
    pub fn target_disks(&self) -> (r: Vec<&Disk>)
        requires
            self.wf(),
        ensures
            r@.map_values(|d: &Disk| d@) == self@.targets(),
    {
        let mut r: Vec<&Disk> = Vec::new();
        let ghost keep = |d: DiskModel| self@.is_selected(d) && self@.capable(d);
        let ghost all = self@.disks;
        let mut i: usize = 0;
        proof {
            reveal(Seq::filter);
            assert(all.take(0) =~= Seq::<DiskModel>::empty());
            assert(r@.map_values(|d: &Disk| d@) =~= all.take(0).filter(keep));
        }
        while i < self.disks.len()
            invariant
                self.wf(),
                i <= self.disks@.len(),
                all == disk_models(self.disks@),
                all == self@.disks,
                keep == (|d: DiskModel| self@.is_selected(d) && self@.capable(d)),
                r@.map_values(|d: &Disk| d@) == all.take(i as int).filter(keep),
            decreases self.disks@.len() - i,
        {
            let ghost before = r@;
            let d = &self.disks[i];
            let on = self.is_selected(d) && self.disk_supports_current(d);
            if on {
                r.push(d);
            }
            proof {
                reveal(Seq::filter);
                let next = all.take(i + 1);
                assert(next.drop_last() =~= all.take(i as int));
                assert(next.last() == d@);
                assert(keep(d@) == on);
                if on {
                    assert(r@.map_values(|d: &Disk| d@) =~= before.map_values(
                        |d: &Disk| d@,
                    ).push(d@));
                }
            }
            i += 1;
        }
        assert(all.take(i as int) =~= all);
        r
    }

    /// True while any worker is still running.
    pub fn jobs_running(&self) -> (b: bool)
        ensures
            b == self@.running(),
    {
        let mut i: usize = 0;
        while i < self.jobs.len()
            invariant
                i <= self.jobs@.len(),
                forall|k: int| 0 <= k < i ==> finished(#[trigger] self@.jobs[k]),
            decreases self.jobs@.len() - i,
        {
            assert(self@.jobs[i as int] == self.jobs@[i as int]@);
            if !self.jobs[i].is_finished() {
                assert(!finished(self@.jobs[i as int]));
                return true;
            }
            i += 1;
        }
        false
    }

    /// Show a transient status message in the status line.
    pub fn flash(&mut self, msg: String, now_ns: u64)
        ensures
            final(self)@ == flashed(old(self)@, msg@, now_ns),
            old(self).wf() ==> final(self).wf(),
    {
        self.status = Some((msg, now_ns));
    }

    fn request_quit(&mut self)
        requires
            old(self).wf(),
        ensures
            final(self)@ == quit_requested(old(self)@),
            final(self).wf(),
    {
        if self.jobs_running() || self.pid1 {
            self.confirm_quit = true;
        } else {
            self.exit = Some(ExitAction::Quit);
        }
    }

    fn execute_quit(&mut self, action: ExitAction)
        requires
            old(self).wf(),
        ensures
            final(self)@ == quit_settled(old(self)@, action),
            final(self).wf(),
    {
        let running = self.jobs_running();
        self.confirm_quit = false;
        if running {
            let ghost start = self@;
            let ghost before = self.jobs@;
            let mut i: usize = 0;
            while i < self.jobs.len()
                invariant
                    i <= self.jobs@.len(),
                    self.jobs@.len() == before.len(),
                    forall|k: int|
                        0 <= k < i ==> (#[trigger] self.jobs@[k])@ == (HandleModel {
                            cancel: true,
                            ..before[k]@
                        }),
                    forall|k: int| i <= k < before.len() ==> self.jobs@[k] == before[k],
                    self@ == (AppModel { jobs: handle_models(self.jobs@), ..start }),
                    self.wf(),
                decreases self.jobs@.len() - i,
            {
                self.jobs[i].request_cancel();
                i += 1;
            }
            assert(handle_models(self.jobs@) =~= all_cancelled(handle_models(before)));
            self.quitting = true;
            // exit is set by on_tick once every worker has wound down.
            self.pending_exit = Some(action);
        } else {
            self.exit = Some(action);
        }
    }

    /// When the current method is an overwrite scheme, reset the verify mode to
    /// that scheme's default. No-op for firmware methods.
    fn pick_method(&mut self, idx: usize)
        requires
            old(self).wf(),
            idx < 17,
        ensures
            final(self)@ == method_picked(old(self)@, idx as nat),
            final(self).wf(),
    {
        self.method_idx = idx;
        match self.current_scheme() {
            Some(scheme) => {
                self.verify = scheme.default_verify;
            },
            None => {},
        }
    }

    fn toggle_current(&mut self, now_ns: u64)
        requires
            old(self).wf(),
        ensures
            final(self)@ == toggled(old(self)@, now_ns),
            final(self).wf(),
    {
        if self.cursor >= self.disks.len() {
            return;
        }
        let name = self.disks[self.cursor].name.clone();
        assert(self@.disks[self.cursor as int] == self.disks@[self.cursor as int]@);
        match self.disks[self.cursor].lock {
            Some(lock) => {
                let mut msg = name;
                push_text(&mut msg, " is locked (");
                push_text(&mut msg, lock.label());
                push_text(&mut msg, ") — it cannot be wiped in this session");
                self.flash(msg, now_ns);
            },
            None => {
                toggle_name(&mut self.selected, name);
            },
        }
    }

    fn begin_confirmation(&mut self, now_ns: u64)
        requires
            old(self).wf(),
        ensures
            final(self)@ == confirmation_begun(old(self)@, now_ns),
            final(self).wf(),
    {
        let chosen: usize = self.selected_disks().len();
        // For firmware methods, only capable disks are targeted.
        let targets: usize = self.target_disks().len();
        proof {
            lemma_targets_within_selection(self@, self@.disks);
        }
        if chosen == 0 {
            self.flash("select at least one disk first (space toggles)".to_owned(), now_ns);
            return;
        }
        if targets == 0 {
            let mut msg = "no selected disk supports ".to_owned();
            push_text(&mut msg, self.method_name());
            push_text(&mut msg, " — pick another method");
            self.flash(msg, now_ns);
            return;
        }
        if targets < chosen {
            let mut msg = String::new();
            push_dec(&mut msg, (chosen - targets) as u64);
            push_text(&mut msg, " selected disk(s) don't support ");
            push_text(&mut msg, self.method_name());
            push_text(&mut msg, " and will be skipped");
            proof {
                assert(msg@ =~= dec((chosen - targets) as nat) + " selected disk(s) don't support "@
                    + choice_name(self@.method()) + " and will be skipped"@);
            }
            self.flash(msg, now_ns);
        }
        match SafetyGate::new(targets) {
            Ok(gate) => {
                self.gate = Some(gate);
                self.screen = Screen::Confirm;
            },
            Err(_) => {},
        }
    }
}

/// Of any disks, no more are targets than are selected.
proof fn lemma_targets_within_selection(m: AppModel, s: Seq<DiskModel>)
    ensures
        s.filter(|d: DiskModel| m.is_selected(d) && m.capable(d)).len() <= s.filter(
            |d: DiskModel| m.is_selected(d),
        ).len(),
    decreases s.len(),
{
    reveal(Seq::filter);
    if s.len() > 0 {
        lemma_targets_within_selection(m, s.drop_last());
    }
}

/// Takes a name off a list, or puts it on it.
fn toggle_name(v: &mut Vec<String>, name: String)
    requires
        texts(old(v)@).no_duplicates(),
    ensures
        texts(final(v)@).no_duplicates(),
        texts(final(v)@).to_set() == (if texts(old(v)@).to_set().contains(name@) {
            texts(old(v)@).to_set().remove(name@)
        } else {
            texts(old(v)@).to_set().insert(name@)
        }),
{
    let ghost before = texts(v@);
    let mut i: usize = 0;
    while i < v.len()
        invariant
            i <= v@.len(),
            texts(v@) == before,
            before == texts(old(v)@),
            before.no_duplicates(),
            forall|k: int| 0 <= k < i ==> before[k] != name@,
        decreases v@.len() - i,
    {
        assert(before[i as int] == v@[i as int]@);
        if same(v[i].as_str(), name.as_str()) {
            let _ = v.remove(i);
            proof {
                let after = texts(v@);
                assert(after =~= before.remove(i as int));
                assert(before.to_set().contains(name@));
                assert(after.to_set() =~= before.to_set().remove(name@)) by {
                    assert forall|n: Seq<char>| after.contains(n) <==> (before.contains(n) && n
                        != name@) by {
                        if after.contains(n) {
                            let k = choose|k: int| 0 <= k < after.len() && after[k] == n;
                            let o = if k < i { k } else { k + 1 };
                            assert(before[o] == n);
                        }
                        if before.contains(n) && n != name@ {
                            let o = choose|o: int| 0 <= o < before.len() && before[o] == n;
                            let k = if o < i { o } else { o - 1 };
                            assert(after[k] == n);
                        }
                    }
                }
            }
            return;
        }
        i += 1;
    }
    let ghost n0 = name@;
    v.push(name);
    proof {
        let after = texts(v@);
        assert(after =~= before.push(n0));
        assert(!before.contains(n0));
        assert(after.to_set() =~= before.to_set().insert(n0)) by {
            assert forall|n: Seq<char>| after.contains(n) <==> (before.contains(n) || n == n0) by {
                if before.contains(n) {
                    let k = choose|k: int| 0 <= k < before.len() && before[k] == n;
                    assert(after[k] == n);
                }
                assert(after[before.len() as int] == n0);
            }
        }
    }
}

impl App {
    fn on_key_disks(&mut self, code: KeyCode, now_ns: u64) -> (e: Effect)
        requires
            old(self).wf(),
        ensures
            (final(self)@, e) == key_on_disks(old(self)@, code, now_ns),
            final(self).wf(),
    {
        match code {
            KeyCode::Up | KeyCode::Char('k') => {
                if self.cursor > 0 {
                    self.cursor = self.cursor - 1;
                }
            },
            KeyCode::Down | KeyCode::Char('j') => {
                if self.disks.len() > 0 {
                    if self.cursor + 1 < self.disks.len() {
                        self.cursor = self.cursor + 1;
                    } else {
                        self.cursor = self.disks.len() - 1;
                    }
                }
            },
            KeyCode::Char(' ') | KeyCode::Enter => {
                self.toggle_current(now_ns);
            },
            KeyCode::Left | KeyCode::Char('[') | KeyCode::Char('<') => {
                let idx: usize = (self.method_idx + self.methods.len() - 1) % self.methods.len();
                self.pick_method(idx);
            },
            KeyCode::Right | KeyCode::Char(']') | KeyCode::Char('>') => {
                let idx: usize = (self.method_idx + 1) % self.methods.len();
                self.pick_method(idx);
            },
            // The verify / rounds / blank options apply to overwrite only.
            KeyCode::Char('v') => {
                if !self.is_firmware() {
                    self.verify = self.verify.cycle();
                }
            },
            KeyCode::Char('+') | KeyCode::Char('=') => {
                if !self.is_firmware() && self.rounds < MAX_ROUNDS {
                    self.rounds = self.rounds + 1;
                }
            },
            KeyCode::Char('-') => {
                if !self.is_firmware() && self.rounds > 1 {
                    self.rounds = self.rounds - 1;
                }
            },
            KeyCode::Char('b') => {
                if !self.is_firmware() {
                    self.final_blank = !self.final_blank;
                }
            },
            KeyCode::Char('r') => {
                return Effect::Rescan;
            },
            KeyCode::Char('s') => {
                self.begin_confirmation(now_ns);
            },
            KeyCode::Char('?') => {
                self.show_help = true;
            },
            KeyCode::Char('q') | KeyCode::Esc => {
                self.request_quit();
            },
            _ => {},
        }
        Effect::Nothing
    }

    fn counting_down(&self) -> (b: bool)
        ensures
            b == counting_down(self@),
    {
        match &self.gate {
            Some(g) => self.screen == Screen::Confirm && g.countdown_remaining_ms().is_some(),
            None => false,
        }
    }

    fn abort_countdown(&mut self, now_ns: u64)
        requires
            old(self).wf(),
        ensures
            final(self)@ == countdown_aborted(old(self)@, now_ns),
            final(self).wf(),
    {
        match self.gate.take() {
            Some(mut gate) => {
                gate.abort();
            },
            None => {},
        }
        self.screen = Screen::Disks;
        self.flash("arming aborted".to_owned(), now_ns);
    }

    fn on_key_confirm(&mut self, code: KeyCode, now_ns: u64)
        requires
            old(self).wf(),
        ensures
            final(self)@ == key_on_confirm(old(self)@, code, now_ns),
            final(self).wf(),
    {
        let mut gate = match self.gate.take() {
            Some(g) => g,
            None => {
                self.screen = Screen::Disks;
                return;
            },
        };
        // During the countdown ANY key aborts.
        if gate.countdown_remaining_ms().is_some() {
            self.gate = Some(gate);
            self.abort_countdown(now_ns);
            return;
        }
        match code {
            KeyCode::Esc => {
                gate.abort();
                self.screen = Screen::Disks;
                return;
            },
            KeyCode::Backspace => {
                gate.backspace();
            },
            KeyCode::Enter => {
                let ghost before = gate@;
                if gate.confirm().is_err() {
                    assert(gate@ == before);
                    self.gate = Some(gate);
                    self.flash("phrase does not match — type it exactly".to_owned(), now_ns);
                    return;
                }
            },
            KeyCode::Char(c) => {
                gate.input_char(c);
            },
            _ => {},
        }
        self.gate = Some(gate);
    }

    fn on_key_wiping(&mut self, code: KeyCode)
        requires
            old(self).wf(),
        ensures
            final(self)@ == key_on_wiping(old(self)@, code),
            final(self).wf(),
    {
        match code {
            KeyCode::Up | KeyCode::Char('k') => {
                if self.cursor > 0 {
                    self.cursor = self.cursor - 1;
                }
            },
            KeyCode::Down | KeyCode::Char('j') => {
                if self.jobs.len() > 0 {
                    if self.cursor + 1 < self.jobs.len() {
                        self.cursor = self.cursor + 1;
                    } else {
                        self.cursor = self.jobs.len() - 1;
                    }
                }
            },
            KeyCode::Char('c') => {
                if self.cursor < self.jobs.len() {
                    assert(self@.jobs[self.cursor as int] == self.jobs@[self.cursor as int]@);
                    if !self.jobs[self.cursor].phase().is_terminal() {
                        self.confirm_cancel_job = Some(self.cursor);
                    }
                }
            },
            KeyCode::Char('?') => {
                self.show_help = true;
            },
            KeyCode::Char('q') | KeyCode::Esc => {
                self.request_quit();
            },
            _ => {},
        }
    }

    fn on_key_summary(&mut self, code: KeyCode) -> (e: Effect)
        requires
            old(self).wf(),
        ensures
            (final(self)@, e) == key_on_summary(old(self)@, code),
            final(self).wf(),
    {
        match code {
            KeyCode::Char('w') => {
                if self.session_report.is_some() {
                    return Effect::SaveReport;
                }
            },
            KeyCode::Char('n') => {
                self.jobs.clear();
                self.trackers.clear();
                self.selected.clear();
                self.session_report = None;
                self.saved_report_path = None;
                self.saved_report_fingerprint = None;
                self.cursor = 0;
                self.screen = Screen::Disks;
                proof {
                    assert(texts(self.selected@) =~= Seq::<Seq<char>>::empty());
                    assert(texts(self.selected@).to_set() =~= Set::<Seq<char>>::empty());
                    assert(handle_models(self.jobs@) =~= Seq::<HandleModel>::empty());
                    assert(tracker_models(self.trackers@) =~= Seq::<Seq<(u64, u64)>>::empty());
                }
                return Effect::Refresh;
            },
            KeyCode::Char('q') | KeyCode::Esc => {
                self.request_quit();
            },
            KeyCode::Char('p') => {
                if self.pid1 {
                    self.exit = Some(ExitAction::PowerOff);
                }
            },
            KeyCode::Char('r') => {
                if self.pid1 {
                    self.exit = Some(ExitAction::Reboot);
                }
            },
            _ => {},
        }
        Effect::Nothing
    }

    fn on_key_quit_modal(&mut self, code: KeyCode)
        requires
            old(self).wf(),
        ensures
            final(self)@ == key_on_quit_modal(old(self)@, code),
            final(self).wf(),
    {
        match code {
            KeyCode::Char('y') => {
                if !self.pid1 {
                    self.execute_quit(ExitAction::Quit);
                }
            },
            KeyCode::Char('r') => {
                if self.pid1 {
                    self.execute_quit(ExitAction::Reboot);
                }
            },
            KeyCode::Char('p') => {
                if self.pid1 {
                    self.execute_quit(ExitAction::PowerOff);
                }
            },
            KeyCode::Esc | KeyCode::Char('n') => {
                self.confirm_quit = false;
            },
            _ => {},
        }
    }

    fn on_key_cancel_modal(&mut self, idx: usize, code: KeyCode, now_ns: u64)
        requires
            old(self).wf(),
        ensures
            final(self)@ == key_on_cancel_modal(old(self)@, idx, code, now_ns),
            final(self).wf(),
    {
        match code {
            KeyCode::Char('y') => {
                self.confirm_cancel_job = None;
                if idx < self.jobs.len() {
                    let ghost before = self@.jobs;
                    assert(before[idx as int] == self.jobs@[idx as int]@);
                    let mut msg = "cancelling wipe of ".to_owned();
                    push_text(&mut msg, self.jobs[idx].name());
                    self.jobs[idx].request_cancel();
                    proof {
                        assert(handle_models(self.jobs@) =~= before.update(
                            idx as int,
                            HandleModel { cancel: true, ..before[idx as int] },
                        ));
                    }
                    self.flash(msg, now_ns);
                }
            },
            KeyCode::Esc | KeyCode::Char('n') => {
                self.confirm_cancel_job = None;
            },
            _ => {},
        }
    }

    /// Handle a key press, dispatching to the active screen/modal.
    pub fn on_key(&mut self, key: KeyEvent, now_ns: u64) -> (e: Effect)
        requires
            old(self).wf(),
        ensures
            (final(self)@, e) == key_pressed(old(self)@, key, now_ns),
            final(self).wf(),
    {
        // Ctrl+C is always a quit request, never a hard kill mid-wipe. Like any
        // key it aborts a running countdown.
        if key.code == KeyCode::Char('c') && key.control {
            if self.counting_down() {
                self.abort_countdown(now_ns);
            }
            self.request_quit();
            return Effect::Nothing;
        }
        if self.show_help {
            self.show_help = false;
            return Effect::Nothing;
        }
        if self.confirm_quit {
            self.on_key_quit_modal(key.code);
            return Effect::Nothing;
        }
        match self.confirm_cancel_job {
            Some(idx) => {
                self.on_key_cancel_modal(idx, key.code, now_ns);
                return Effect::Nothing;
            },
            None => {},
        }
        match self.screen {
            Screen::Disks => self.on_key_disks(key.code, now_ns),
            Screen::Confirm => {
                self.on_key_confirm(key.code, now_ns);
                Effect::Nothing
            },
            Screen::Wiping => {
                self.on_key_wiping(key.code);
                Effect::Nothing
            },
            Screen::Summary => self.on_key_summary(key.code),
        }
    }
}

impl App {
    /// Whether the work of every target can be counted in bytes.
    pub fn work_fits(&self) -> (b: bool)
        requires
            self.wf(),
        ensures
            b == self@.work_fits(),
    {
        let spec = match self.spec() {
            Some(s) => s,
            None => {
                return true;
            },
        };
        let targets = self.target_disks();
        let ghost all = self@.targets();
        let mut i: usize = 0;
        while i < targets.len()
            invariant
                i <= targets@.len(),
                targets@.map_values(|d: &Disk| d@) == all,
                all == self@.targets(),
                self@.spec() == Some(spec@),
                forall|k: int|
                    0 <= k < i ==> spec@.work((#[trigger] all[k]).size_bytes as nat) <= u64::MAX,
            decreases targets@.len() - i,
        {
            assert(all[i as int] == targets@.map_values(|d: &Disk| d@)[i as int]);
            assert(all[i as int] == targets@[i as int]@);
            if !spec.work_fits(targets[i].size_bytes) {
                return false;
            }
            i += 1;
        }
        assert(all.len() == targets@.len());
        true
    }

    /// The job that the current method starts on `disk`.
    fn launch(&self, disk: &Disk, token: &ArmToken) -> (r: Result<Launch, CoreError>)
        requires
            self.wf(),
            disk.lock is None,
            self@.spec() matches Some(s) ==> s.work(disk.size_bytes as nat) <= u64::MAX,
        ensures
            r is Ok,
            r matches Ok(l) ==> l@ == launch_of(self@, disk@) && l.wf(),
    {
        match self.spec() {
            Some(spec) => match spawn_wipe(disk, &spec, token) {
                Ok(job) => Ok(Launch::Wipe { disk: disk.clone(), spec, job }),
                Err(e) => Err(e),
            },
            None => match self.current_method() {
                MethodChoice::Firmware(method) => match spawn_firmware(disk, method, token) {
                    Ok(erase) => Ok(Launch::Firmware { disk: disk.clone(), erase }),
                    Err(e) => Err(e),
                },
                MethodChoice::Overwrite(_) => Err(CoreError::InvalidState),
            },
        }
    }

    /// Builds the jobs of all targets.
    fn launch_all(&self, token: &ArmToken) -> (r: Vec<Launch>)
        requires
            self.wf(),
            self@.work_fits(),
        ensures
            launch_models(r@) == launches_of(self@),
            forall|i: int| 0 <= i < r@.len() ==> (#[trigger] r@[i]).wf(),
    {
        let targets = self.target_disks();
        let ghost all = self@.targets();
        let mut r: Vec<Launch> = Vec::new();
        let mut i: usize = 0;
        assert(all.len() == targets@.len()) by {
            assert(targets@.map_values(|d: &Disk| d@).len() == targets@.len());
        }
        assert(launch_models(r@) =~= launches_of(self@).take(0));
        while i < targets.len()
            invariant
                self.wf(),
                self@.work_fits(),
                i <= targets@.len(),
                all == self@.targets(),
                all.len() == targets@.len(),
                targets@.map_values(|d: &Disk| d@) == all,
                launch_models(r@) == launches_of(self@).take(i as int),
                forall|k: int| 0 <= k < r@.len() ==> (#[trigger] r@[k]).wf(),
            decreases targets@.len() - i,
        {
            let ghost before = r@;
            assert(all[i as int] == targets@.map_values(|d: &Disk| d@)[i as int]);
            assert(all[i as int] == targets@[i as int]@);
            proof {
                law_targets_are_unlocked_and_capable(self@, i as int);
            }
            match self.launch(targets[i], token) {
                Ok(l) => {
                    r.push(l);
                    proof {
                        assert(launch_models(r@) =~= launch_models(before).push(l@));
                        assert(launches_of(self@).take(i + 1) =~= launches_of(self@).take(
                            i as int,
                        ).push(launches_of(self@)[i as int]));
                    }
                },
                Err(_) => {},
            }
            i += 1;
        }
        assert(launches_of(self@).take(i as int) =~= launches_of(self@));
        r
    }

    fn start_jobs(&mut self, token: ArmToken, now_ns: u64) -> (r: Vec<Launch>)
        requires
            old(self).wf(),
            old(self)@.gate is None,
            old(self)@.work_fits(),
        ensures
            final(self)@ == jobs_started(old(self)@, now_ns),
            final(self).wf(),
            launch_models(r@) == launches_of(old(self)@),
            forall|i: int| 0 <= i < r@.len() ==> (#[trigger] r@[i]).wf(),
    {
        let r = self.launch_all(&token);
        let ghost m = self@;
        let mut jobs: Vec<JobHandle> = Vec::new();
        let mut trackers: Vec<SpeedTracker> = Vec::new();
        let mut i: usize = 0;
        assert(r@.len() == m.targets().len()) by {
            assert(launch_models(r@).len() == r@.len());
        }
        while i < r.len()
            invariant
                i <= r@.len(),
                launch_models(r@) == launches_of(m),
                r@.len() == m.targets().len(),
                jobs@.len() == i,
                trackers@.len() == i,
                forall|k: int|
                    0 <= k < i ==> (#[trigger] jobs@[k])@ == fresh_handle(m, m.targets()[k]),
                forall|k: int|
                    0 <= k < i ==> (#[trigger] trackers@[k])@ == Seq::<(u64, u64)>::empty(),
            decreases r@.len() - i,
        {
            proof {
                assert(launch_models(r@)[i as int] == r@[i as int]@);
                assert(launches_of(m)[i as int] == launch_of(m, m.targets()[i as int]));
            }
            let (disk, snap) = match &r[i] {
                Launch::Wipe { disk, spec: _, job } => (disk.clone(), job.progress().snapshot()),
                Launch::Firmware { disk, erase } => (disk.clone(), erase.progress().snapshot()),
            };
            jobs.push(JobHandle::new(disk, snap));
            trackers.push(SpeedTracker::new());
            i += 1;
        }
        proof {
            assert(handle_models(jobs@) =~= m.targets().map_values(
                |d: DiskModel| fresh_handle(m, d),
            ));
            assert(tracker_models(trackers@) =~= m.targets().map_values(
                |d: DiskModel| Seq::<(u64, u64)>::empty(),
            ));
        }
        self.jobs = jobs;
        self.trackers = trackers;
        if self.jobs.len() == 0 {
            self.screen = Screen::Disks;
            self.flash("no jobs could be started".to_owned(), now_ns);
        } else {
            self.disk_cursor = self.cursor;
            self.cursor = 0;
            self.screen = Screen::Wiping;
        }
        r
    }

    fn sample(&mut self, now_ns: u64)
        requires
            old(self).wf(),
        ensures
            final(self).wf(),
            final(self)@ == (AppModel {
                trackers: sampled(old(self)@.trackers, old(self)@.jobs, now_ns),
                ..old(self)@
            }),
    {
        let ghost start = self@;
        let ghost before = self.trackers@;
        let mut i: usize = 0;
        while i < self.trackers.len()
            invariant
                i <= self.trackers@.len(),
                self.trackers@.len() == before.len(),
                start.trackers == tracker_models(before),
                start.jobs == handle_models(self.jobs@),
                self.jobs@.len() == before.len(),
                forall|k: int|
                    0 <= k < i ==> (#[trigger] self.trackers@[k])@ == sampled(
                        start.trackers,
                        start.jobs,
                        now_ns,
                    )[k],
                forall|k: int| i <= k < before.len() ==> self.trackers@[k] == before[k],
                self@ == (AppModel { trackers: tracker_models(self.trackers@), ..start }),
                self.wf(),
            decreases self.trackers@.len() - i,
        {
            assert(start.jobs[i as int] == self.jobs@[i as int]@);
            assert(start.trackers[i as int] == before[i as int]@);
            if !self.jobs[i].phase().is_terminal() {
                let done: u64 = self.jobs[i].work_done();
                self.trackers[i].push(now_ns, done);
            }
            i += 1;
        }
        assert(tracker_models(self.trackers@) =~= sampled(start.trackers, start.jobs, now_ns));
    }

    fn all_reported(&self) -> (b: bool)
        ensures
            b == all_reported(self@.jobs),
    {
        let mut i: usize = 0;
        while i < self.jobs.len()
            invariant
                i <= self.jobs@.len(),
                forall|k: int| 0 <= k < i ==> (#[trigger] self@.jobs[k]).report is Some,
            decreases self.jobs@.len() - i,
        {
            assert(self@.jobs[i as int] == self.jobs@[i as int]@);
            if self.jobs[i].report().is_none() {
                return false;
            }
            i += 1;
        }
        self.jobs.len() > 0
    }

    fn collect_reports(&self) -> (r: Vec<JobReport>)
        requires
            all_reported(self@.jobs),
        ensures
            job_models(r@) == reports_of(self@.jobs),
    {
        let mut r: Vec<JobReport> = Vec::new();
        let mut i: usize = 0;
        while i < self.jobs.len()
            invariant
                i <= self.jobs@.len(),
                all_reported(self@.jobs),
                r@.len() == i,
                forall|k: int| 0 <= k < i ==> (#[trigger] r@[k])@ == self@.jobs[k].report->0,
            decreases self.jobs@.len() - i,
        {
            assert(self@.jobs[i as int] == self.jobs@[i as int]@);
            match self.jobs[i].report() {
                Some(x) => {
                    r.push(x.clone());
                },
                None => {},
            }
            i += 1;
        }
        assert(job_models(r@) =~= reports_of(self@.jobs));
        r
    }

    fn watch_jobs(&mut self, now_ns: u64, unix_now: u64)
        requires
            old(self).wf(),
        ensures
            final(self).wf(),
            final(self)@ == tick_jobs(old(self)@, now_ns, unix_now),
    {
        if self.screen != Screen::Wiping {
            return;
        }
        self.sample(now_ns);
        if self.all_reported() && !self.quitting {
            let jobs = self.collect_reports();
            self.session_report =
            Some(SessionReport::new(self.sys.clone(), self.simulation, jobs, unix_now));
            self.cursor = 0;
            self.screen = Screen::Summary;
        }
    }

    fn finish_quit(&mut self)
        requires
            old(self).wf(),
        ensures
            final(self).wf(),
            final(self)@ == tick_quit(old(self)@),
    {
        if self.quitting && !self.jobs_running() {
            match self.pending_exit {
                Some(action) => {
                    self.exit = Some(action);
                },
                None => {
                    self.exit = Some(ExitAction::Quit);
                },
            }
            self.pending_exit = None;
        }
    }

    /// Advance time: animations, the arming countdown, throughput sampling,
    /// completion detection, and deferred-quit handling. `elapsed_ms` is the
    /// time since the previous tick, `now_ns` the time on the clock that status
    /// messages and samples are stamped with, and `unix_now` the Unix time. The
    /// jobs to launch are handed out once the ceremony is complete.
    pub fn on_tick(&mut self, elapsed_ms: u64, now_ns: u64, unix_now: u64) -> (r: Vec<Launch>)
        requires
            old(self).wf(),
            tick_arms(old(self)@, elapsed_ms as nat) ==> old(self)@.work_fits(),
        ensures
            final(self).wf(),
            final(self)@ == ticked_app(old(self)@, elapsed_ms as nat, now_ns, unix_now),
            launch_models(r@) == (if tick_arms(old(self)@, elapsed_ms as nat) {
                launches_of(tick_animation(old(self)@, now_ns))
            } else {
                Seq::empty()
            }),
            forall|i: int| 0 <= i < r@.len() ==> (#[trigger] r@[i]).wf(),
    {
        self.spinner_frame = self.spinner_frame.wrapping_add(1);
        // Expire transient status messages.
        let expired = match &self.status {
            Some((_, at)) => now_ns.saturating_sub(*at) > STATUS_NS,
            None => false,
        };
        if expired {
            self.status = None;
        }
        let ghost m1 = self@;
        proof {
            assert(m1 == tick_animation(old(self)@, now_ns));
            lemma_same_targets(old(self)@, m1);
        }
        let r = self.drive_countdown(elapsed_ms, now_ns);
        self.watch_jobs(now_ns, unix_now);
        self.finish_quit();
        r
    }

    /// Drive the arming countdown.
    fn drive_countdown(&mut self, elapsed_ms: u64, now_ns: u64) -> (r: Vec<Launch>)
        requires
            old(self).wf(),
            tick_arms(old(self)@, elapsed_ms as nat) ==> old(self)@.work_fits(),
        ensures
            final(self).wf(),
            final(self)@ == tick_countdown(old(self)@, elapsed_ms as nat, now_ns),
            launch_models(r@) == (if tick_arms(old(self)@, elapsed_ms as nat) {
                launches_of(old(self)@)
            } else {
                Seq::empty()
            }),
            forall|i: int| 0 <= i < r@.len() ==> (#[trigger] r@[i]).wf(),
    {
        let ghost start = self@;
        if self.screen == Screen::Confirm {
            match self.gate.take() {
                Some(mut gate) => match gate.tick(elapsed_ms) {
                    Some(token) => {
                        let ghost m = self@;
                        proof {
                            lemma_same_targets(start, m);
                            assert(m.spec() == start.spec());
                            assert(launches_of(m) =~= launches_of(start)) by {
                                assert forall|i: int| 0 <= i < m.targets().len() implies launch_of(
                                    m,
                                    #[trigger] m.targets()[i],
                                ) == launch_of(start, m.targets()[i]) by {
                                }
                            }
                            assert forall|d: DiskModel| #[trigger] fresh_handle(m, d)
                                == fresh_handle(start, d) by {
                            }
                            assert(m.targets().map_values(|d: DiskModel| fresh_handle(m, d))
                                =~= start.targets().map_values(
                                |d: DiskModel| fresh_handle(start, d),
                            ));
                        }
                        return self.start_jobs(token, now_ns);
                    },
                    None => {
                        self.gate = Some(gate);
                    },
                },
                None => {},
            }
        }
        let none: Vec<Launch> = Vec::new();
        assert(launch_models(none@) =~= Seq::<LaunchModel>::empty());
        none
    }
}

impl App {
    /// Re-enumerate disks and their firmware capability, preserving any
    /// still-present selections. `found` is the result of a scan.
    pub fn refresh_disks(
        &mut self,
        found: Result<Vec<(Disk, FirmwareSupport)>, CoreError>,
        now_ns: u64,
    )
        requires
            old(self).wf(),
        ensures
            final(self)@ == refreshed(old(self)@, found, now_ns),
            final(self).wf(),
    {
        match found {
            Ok(list) => {
                self.take_disks(list);
            },
            Err(e) => {
                let mut msg = "disk scan failed: ".to_owned();
                let text = e.message();
                push_text(&mut msg, text.as_str());
                self.flash(msg, now_ns);
            },
        }
    }

    fn take_disks(&mut self, found: Vec<(Disk, FirmwareSupport)>)
        requires
            old(self).wf(),
        ensures
            final(self)@ == disks_found(old(self)@, found@),
            final(self).wf(),
    {
        let (disks, supports) = split_scan(&found);
        let ghost before = self.selected@;
        retain_present(&mut self.selected, &disks);
        proof {
            lemma_retained(before, self.selected@, disks@);
        }
        self.supports = supports;
        self.disks = disks;
        if self.cursor >= self.disks.len() {
            self.cursor = if self.disks.len() > 0 { self.disks.len() - 1 } else { 0 };
        }
    }

    /// Takes the result of a scan that the operator asked for.
    pub fn rescanned(
        &mut self,
        found: Result<Vec<(Disk, FirmwareSupport)>, CoreError>,
        now_ns: u64,
    )
        requires
            old(self).wf(),
        ensures
            final(self)@ == flashed(
                refreshed(old(self)@, found, now_ns),
                "disk list rescanned"@,
                now_ns,
            ),
            final(self).wf(),
    {
        self.refresh_disks(found, now_ns);
        self.flash("disk list rescanned".to_owned(), now_ns);
    }

    /// Takes the result of saving the report: where it was written and the
    /// fingerprint of the key that signed it, or the error.
    pub fn report_saved(&mut self, saved: Result<(String, String), String>, now_ns: u64)
        requires
            old(self).wf(),
        ensures
            final(self).wf(),
            final(self)@ == (match saved {
                Ok((path, key)) => flashed(
                    AppModel {
                        saved_report_path: Some(path@),
                        saved_report_fingerprint: Some(key@),
                        ..old(self)@
                    },
                    "report + Ed25519 signature saved to "@ + path@ + " (key "@ + key@ + ")"@,
                    now_ns,
                ),
                Err(e) => flashed(old(self)@, "could not save report: "@ + e@, now_ns),
            }),
    {
        match saved {
            Ok((path, key)) => {
                let mut msg = "report + Ed25519 signature saved to ".to_owned();
                push_text(&mut msg, path.as_str());
                push_text(&mut msg, " (key ");
                push_text(&mut msg, key.as_str());
                push_text(&mut msg, ")");
                self.saved_report_path = Some(path);
                self.saved_report_fingerprint = Some(key);
                self.flash(msg, now_ns);
            },
            Err(e) => {
                let mut msg = "could not save report: ".to_owned();
                push_text(&mut msg, e.as_str());
                self.flash(msg, now_ns);
            },
        }
    }

    /// Takes back job `idx`, for which no worker could be started.
    pub fn job_not_started(&mut self, idx: usize, error: String, now_ns: u64)
        requires
            old(self).wf(),
            idx < old(self)@.jobs.len(),
        ensures
            final(self).wf(),
            final(self)@ == not_started(old(self)@, idx as int, error@, now_ns),
    {
        let ghost m = self@;
        assert(m.jobs[idx as int] == self.jobs@[idx as int]@);
        let mut msg = "failed to start ".to_owned();
        push_text(&mut msg, self.jobs[idx].name());
        push_text(&mut msg, ": ");
        let text = CoreError::Io(error).message();
        push_text(&mut msg, text.as_str());
        let _ = self.jobs.remove(idx);
        let _ = self.trackers.remove(idx);
        proof {
            assert(handle_models(self.jobs@) =~= m.jobs.remove(idx as int));
            assert(tracker_models(self.trackers@) =~= m.trackers.remove(idx as int));
            assert(msg@ =~= "failed to start "@ + m.jobs[idx as int].disk.name + ": "@ + (
            "I/O error: "@ + error@));
        }
        self.flash(msg, now_ns);
        if self.jobs.len() == 0 {
            self.cursor = self.disk_cursor;
            self.screen = Screen::Disks;
            self.flash("no jobs could be started".to_owned(), now_ns);
        }
    }

    /// Build the app from a first disk scan. `pid1` selects appliance mode (quit
    /// becomes reboot/power-off).
    pub fn new(
        simulation: bool,
        pid1: bool,
        sys: SystemInfo,
        found: Result<Vec<(Disk, FirmwareSupport)>, CoreError>,
        now_ns: u64,
    ) -> (app: Self)
        ensures
            app.wf(),
            app@ == refreshed(fresh_app(simulation, pid1, sys@), found, now_ns),
    {
        let schemes = all_schemes();
        // Build the picker list: overwrite schemes first, then firmware methods.
        let methods = picker_list();
        // Default to the recommended overwrite scheme.
        let method_idx: usize = recommended_index(&schemes);
        let ghost views = schemes@.map_values(|s: Scheme| s@);
        assert(views.len() == schemes@.len());
        assert(views[0] == schemes@[0]@);
        assert(schemes@[0].recommended);
        let verify = schemes[method_idx].default_verify;
        let mut app = App {
            simulation,
            pid1,
            sys,
            disks: Vec::new(),
            cursor: 0,
            disk_cursor: 0,
            selected: Vec::new(),
            supports: Vec::new(),
            schemes,
            methods,
            method_idx,
            verify,
            rounds: 1,
            final_blank: false,
            screen: Screen::Disks,
            gate: None,
            jobs: Vec::new(),
            trackers: Vec::new(),
            session_report: None,
            saved_report_path: None,
            saved_report_fingerprint: None,
            status: None,
            show_help: false,
            confirm_quit: false,
            confirm_cancel_job: None,
            quitting: false,
            pending_exit: None,
            exit: None,
            spinner_frame: 0,
        };
        proof {
            assert(texts(app.selected@) =~= Seq::<Seq<char>>::empty());
            assert(texts(app.selected@).to_set() =~= Set::<Seq<char>>::empty());
            assert(app@.disks =~= Seq::<DiskModel>::empty());
            assert(app@.jobs =~= Seq::<HandleModel>::empty());
            assert(app@.trackers =~= Seq::<Seq<(u64, u64)>>::empty());
        }
        app.refresh_disks(found, now_ns);
        app
    }
}

/// The overwrite schemes, then the firmware methods.
fn picker_list() -> (v: Vec<MethodChoice>)
    ensures
        v@ == picker(),
{
    let mut v: Vec<MethodChoice> = Vec::new();
    let mut i: usize = 0;
    while i < 17
        invariant
            i <= 17,
            v@ == picker().take(i as int),
        decreases 17 - i,
    {
        if i < 11 {
            v.push(MethodChoice::Overwrite(i));
        } else {
            v.push(MethodChoice::Firmware(nth_method(i - 11)));
        }
        i += 1;
        assert(v@ =~= picker().take(i as int));
    }
    assert(v@ =~= picker());
    v
}

/// The index of the first recommended scheme, or 0 where none is recommended.
fn recommended_index(schemes: &Vec<Scheme>) -> (i: usize)
    ensures
        (exists|k: int| 0 <= k < schemes@.len() && (#[trigger] schemes@[k]).recommended) ==> i
            < schemes@.len() && schemes@[i as int].recommended,
        forall|k: int| 0 <= k < i ==> !(#[trigger] schemes@[k]).recommended,
        (forall|k: int| 0 <= k < schemes@.len() ==> !(#[trigger] schemes@[k]).recommended) ==> i
            == 0,
{
    let mut i: usize = 0;
    while i < schemes.len()
        invariant
            i <= schemes@.len(),
            forall|k: int| 0 <= k < i ==> !(#[trigger] schemes@[k]).recommended,
        decreases schemes@.len() - i,
    {
        if schemes[i].recommended {
            return i;
        }
        i += 1;
    }
    0
}

/// The disks of a scan, and their support by name.
fn split_scan(found: &Vec<(Disk, FirmwareSupport)>) -> (r: (
    Vec<Disk>,
    Vec<(String, FirmwareSupport)>,
))
    ensures
        disk_models(r.0@) == found@.map_values(|p: (Disk, FirmwareSupport)| p.0@),
        support_map(r.1@) == scan_supports(found@),
{
    let mut disks: Vec<Disk> = Vec::new();
    let mut supports: Vec<(String, FirmwareSupport)> = Vec::new();
    let mut i: usize = 0;
    assert(found@.take(0) =~= Seq::<(Disk, FirmwareSupport)>::empty());
    while i < found.len()
        invariant
            i <= found@.len(),
            disks@.len() == i,
            forall|k: int| 0 <= k < i ==> (#[trigger] disks@[k])@ == found@[k].0@,
            support_map(supports@) == scan_supports(found@.take(i as int)),
        decreases found@.len() - i,
    {
        let ghost before = supports@;
        disks.push(found[i].0.clone());
        supports.push((found[i].0.name.clone(), found[i].1));
        proof {
            assert(supports@.drop_last() =~= before);
            assert(found@.take(i + 1).drop_last() =~= found@.take(i as int));
            assert(found@.take(i + 1).last() == found@[i as int]);
        }
        i += 1;
    }
    assert(found@.take(i as int) =~= found@);
    assert(disk_models(disks@) =~= found@.map_values(|p: (Disk, FirmwareSupport)| p.0@));
    (disks, supports)
}

proof fn lemma_retained(before: Seq<String>, after: Seq<String>, disks: Seq<Disk>)
    requires
        forall|n: Seq<char>| #[trigger]
            texts(after).contains(n) <==> texts(before).contains(n) && is_present(disks, n),
    ensures
        texts(after).to_set() == texts(before).to_set().filter(
            |n: Seq<char>|
                exists|i: int|
                    0 <= i < disk_models(disks).len() && (#[trigger] disk_models(disks)[i]).name
                        == n,
        ),
{
    let models = disk_models(disks);
    let present = |n: Seq<char>| exists|i: int| 0 <= i < models.len() && (#[trigger] models[i]).name == n;
    assert forall|n: Seq<char>| #[trigger] present(n) == is_present(disks, n) by {
        if is_present(disks, n) {
            let i = choose|i: int| 0 <= i < disks.len() && (#[trigger] disks[i]).name@ == n;
            assert(models[i].name == n);
        }
        if present(n) {
            let i = choose|i: int| 0 <= i < models.len() && (#[trigger] models[i]).name == n;
            assert(disks[i].name@ == n);
        }
    }
    assert forall|n: Seq<char>| texts(after).to_set().contains(n) == texts(
        before,
    ).to_set().filter(present).contains(n) by {
        assert(texts(after).contains(n) == texts(after).to_set().contains(n));
        assert(present(n) == is_present(disks, n));
    }
    assert(texts(after).to_set() =~= texts(before).to_set().filter(present));
}

/// Keeps the names of disks that are present.
fn retain_present(v: &mut Vec<String>, disks: &Vec<Disk>)
    requires
        texts(old(v)@).no_duplicates(),
    ensures
        texts(final(v)@).no_duplicates(),
        forall|n: Seq<char>| #[trigger]
            texts(final(v)@).contains(n) <==> texts(old(v)@).contains(n) && is_present(disks@, n),
{
    let ghost before = texts(v@);
    let mut kept: Vec<String> = Vec::new();
    let mut i: usize = 0;
    assert(texts(kept@) =~= Seq::<Seq<char>>::empty());
    while i < v.len()
        invariant
            i <= v@.len(),
            texts(v@) == before,
            before == texts(old(v)@),
            before.no_duplicates(),
            texts(kept@).no_duplicates(),
            forall|n: Seq<char>| #[trigger]
                texts(kept@).contains(n) <==> before.take(i as int).contains(n) && is_present(
                    disks@,
                    n,
                ),
        decreases v@.len() - i,
    {
        let ghost so_far = texts(kept@);
        let ghost name = before[i as int];
        assert(name == v@[i as int]@);
        let present = is_present_in(disks, v[i].as_str());
        assert(!before.take(i as int).contains(name));
        assert(!so_far.contains(name));
        if present {
            kept.push(v[i].clone());
            assert(texts(kept@) =~= so_far.push(name));
            assert forall|k: int| 0 <= k < so_far.len() implies so_far[k] != name by {
                assert(so_far.contains(so_far[k]));
            }
        }
        proof {
            let next = before.take(i + 1);
            assert(next =~= before.take(i as int).push(name));
            assert forall|n: Seq<char>| #[trigger]
                texts(kept@).contains(n) <==> next.contains(n) && is_present(disks@, n) by {
                lemma_push_contains(before.take(i as int), name, n);
                if present {
                    lemma_push_contains(so_far, name, n);
                }
                assert(so_far.contains(n) <==> before.take(i as int).contains(n) && is_present(
                    disks@,
                    n,
                ));
            }
        }
        i += 1;
    }
    assert(before.take(i as int) =~= before);
    *v = kept;
}

proof fn lemma_push_contains(s: Seq<Seq<char>>, x: Seq<char>, n: Seq<char>)
    ensures
        s.push(x).contains(n) <==> s.contains(n) || n == x,
{
    if s.contains(n) {
        let k = choose|k: int| 0 <= k < s.len() && s[k] == n;
        assert(s.push(x)[k] == n);
    }
    assert(s.push(x)[s.len() as int] == x);
}

fn is_present_in(disks: &Vec<Disk>, name: &str) -> (b: bool)
    ensures
        b == is_present(disks@, name@),
{
    let mut i: usize = 0;
    while i < disks.len()
        invariant
            i <= disks@.len(),
            forall|k: int| 0 <= k < i ==> (#[trigger] disks@[k]).name@ != name@,
        decreases disks@.len() - i,
    {
        if same(disks[i].name.as_str(), name) {
            return true;
        }
        i += 1;
    }
    false
}

} // verus!
