//! End-to-end tests of the app state machine, driven entirely through public
//! key and tick events, on tiny in-memory disks.

use dban::algorithm::VerifyMode;
use dban::app::{App, Effect, ExitAction, KeyCode, KeyEvent, Launch, Screen};
use dban::device::{Bus, Disk, LockReason, MediaKind};
use dban::engine::{JobClock, JobStatus, Phase};
use dban::firmware::{demo_support, FirmwareSupport};
use dban::job::{JobAction, JobEvent};
use dban::sysinfo::SystemInfo;
use dban::theme::Glyphs;
use dban::ui::{
    centered, draw_cancel_modal, draw_confirm, draw_disks, draw_help, draw_hints, draw_quit_modal,
    draw_scheme_panel, draw_status, draw_summary, draw_wiping, gauge, header_left, header_right, Rect, Role, Span,
};
use dban::CoreError;

const SIZE: u64 = 64 * 1024;

fn sys() -> SystemInfo {
    SystemInfo {
        cpu_model: "Test CPU".to_string(),
        cpu_cores: 4,
        mem_total_bytes: 8_000_000_000,
        kernel: "Linux 6.1".to_string(),
    }
}

/// Two tiny disks, one wipeable and one locked.
fn scan() -> Result<Vec<(Disk, FirmwareSupport)>, CoreError> {
    let mut found = Vec::new();
    for (name, lock) in [("sda", None), ("sdb", Some(LockReason::Mounted))] {
        let disk = Disk {
            path: format!("{name}.img"),
            name: name.to_string(),
            model: format!("Fast {name}"),
            serial: format!("S-{name}"),
            size_bytes: SIZE,
            bus: Bus::Demo,
            kind: MediaKind::Ssd,
            removable: false,
            lock,
            simulated: true,
            throttle_bps: None,
        };
        let support = demo_support(&disk);
        found.push((disk, support));
    }
    Ok(found)
}

fn new_app() -> App {
    App::new(true, false, sys(), scan(), 0)
}

fn press(app: &mut App, code: KeyCode) -> Effect {
    app.on_key(KeyEvent { code, control: false }, 0)
}

fn key(app: &mut App, c: char) -> Effect {
    press(app, KeyCode::Char(c))
}

fn tick(app: &mut App, ms: u64) -> Vec<Launch> {
    app.on_tick(ms, 0, 1_700_000_000)
}

fn type_phrase(app: &mut App, phrase: &str) {
    for c in phrase.chars() {
        key(app, c);
    }
    press(app, KeyCode::Enter);
}

fn plain(lines: &[Vec<Span>]) -> String {
    let mut s = String::new();
    for line in lines {
        for span in line {
            s.push_str(&span.text);
        }
        s.push('\n');
    }
    s
}

/// Draws the active screen and the open modals.
fn render(app: &App) -> String {
    let g = Glyphs::plain();
    let mut all = vec![header_left(app, &g), header_right(app, &g)];
    match app.screen {
        Screen::Disks => {
            all.extend(draw_disks(app, &g));
            all.extend(draw_scheme_panel(app, &g));
        }
        Screen::Confirm => all.extend(draw_confirm(app, &g).unwrap_or_default()),
        Screen::Wiping => {
            for i in 0..app.jobs.len() {
                all.push(draw_wiping(app, i, &g, "1 MB/s"));
                assert!(!gauge(app, i, &g, "50.0%").0.is_empty());
            }
        }
        Screen::Summary => {
            let n = app.session_report.as_ref().map_or(0, |r| r.jobs.len());
            all.extend(draw_summary(app, &g, &vec!["1".to_string(); n]).unwrap_or_default());
        }
    }
    all.extend(draw_status(app, &g));
    all.push(draw_hints(app, &g));
    if app.show_help {
        all.extend(draw_help(&g));
    }
    if app.confirm_quit {
        all.extend(draw_quit_modal(app, &g));
    }
    if app.confirm_cancel_job.is_some() {
        all.extend(draw_cancel_modal(app, &g));
    }
    plain(&all)
}

/// Runs a launched overwrite to its end and shows the result to job `i`.
fn work(app: &mut App, i: usize, launch: Launch) -> Vec<u8> {
    let (disk, spec, mut job) = match launch {
        Launch::Wipe { disk, spec, job } => (disk, spec, job),
        Launch::Firmware { .. } => panic!("an overwrite was expected"),
    };
    let mut data = vec![0xAAu8; disk.size_bytes as usize];
    let mut at: usize = 0;
    let mut action = JobAction::Open;
    loop {
        let event = match action {
            JobAction::Open | JobAction::SeekStart => {
                at = 0;
                JobEvent::Done
            }
            JobAction::WriteChunk { len } => {
                data[at..at + len].copy_from_slice(job.chunk());
                at += len;
                JobEvent::Done
            }
            JobAction::ReadChunk { len } => {
                at += len;
                JobEvent::Data(data[at - len..at].to_vec())
            }
            JobAction::Sync | JobAction::Pace { .. } => JobEvent::Done,
            JobAction::Stop => break,
        };
        action = job.step(event, app.jobs[i].cancel_requested(), 0);
    }
    let clock = JobClock { started_unix: 1, finished_unix: 2, duration_ns: 3 };
    let report = job.finish(&disk, &spec, clock);
    app.jobs[i].observe(job.progress().snapshot(), true, Some(report));
    data
}

/// Selects the first disk and the zero fill, and starts it.
fn started() -> (App, Launch) {
    let mut app = new_app();
    key(&mut app, ' ');
    while app.current_scheme().map(|s| s.id) != Some("zero") {
        press(&mut app, KeyCode::Right);
    }
    key(&mut app, 's');
    type_phrase(&mut app, "ERASE 1 DISK");
    let mut launches = tick(&mut app, 6000);
    assert_eq!(launches.len(), 1);
    let launch = launches.remove(0);
    (app, launch)
}

#[test]
fn locked_disk_cannot_be_selected() {
    let mut app = new_app();
    // Cursor starts at sda; move to sdb (locked) and try to select.
    press(&mut app, KeyCode::Down);
    key(&mut app, ' ');
    assert!(
        app.selected.is_empty(),
        "locked disk must not be selectable"
    );
    render(&app);
}

#[test]
fn cannot_arm_with_nothing_selected() {
    let mut app = new_app();
    key(&mut app, 's');
    assert_eq!(
        app.screen,
        Screen::Disks,
        "must not advance without a selection"
    );
}

#[test]
fn wrong_phrase_blocks_start() {
    let mut app = new_app();
    key(&mut app, ' '); // select sda
    key(&mut app, 's'); // arm
    assert_eq!(app.screen, Screen::Confirm);
    for c in "WRONG".chars() {
        key(&mut app, c);
    }
    press(&mut app, KeyCode::Enter);
    // Still on confirm, no countdown started.
    assert_eq!(app.screen, Screen::Confirm);
    render(&app);
    assert!(tick(&mut app, 60_000).is_empty());
    assert_eq!(app.screen, Screen::Confirm);
}

#[test]
fn full_wipe_run_to_summary() {
    let mut app = new_app();
    key(&mut app, ' '); // select sda
    // Pick the fastest method: Quick Zero Fill (id "zero"), single pass.
    while app.current_scheme().map(|s| s.id) != Some("zero") {
        press(&mut app, KeyCode::Right);
    }
    key(&mut app, 's'); // arm
    assert_eq!(app.screen, Screen::Confirm);
    for c in "ERASE 1 DISK".chars() {
        key(&mut app, c);
    }
    press(&mut app, KeyCode::Enter);

    // Burn through the 5s countdown.
    let launches = tick(&mut app, 6000);
    assert_eq!(
        app.screen,
        Screen::Wiping,
        "countdown should have launched the job"
    );
    assert_eq!(launches.len(), 1);
    for (i, launch) in launches.into_iter().enumerate() {
        let data = work(&mut app, i, launch);
        assert!(data.iter().all(|&b| b == 0));
    }
    tick(&mut app, 50);
    assert_eq!(app.screen, Screen::Summary);

    let report = app.session_report.as_ref().unwrap();
    assert_eq!(report.jobs.len(), 1);
    assert!(
        report.all_succeeded(),
        "the wipe should have verified clean"
    );
    assert_eq!(report.created_unix, 1_700_000_000);
    let text = render(&app);
    assert!(text.contains("Press w to write a signed JSON erasure report."));
    assert!(text.contains("SUCCESS"));
}

#[test]
fn countdown_is_abortable() {
    let mut app = new_app();
    key(&mut app, ' ');
    key(&mut app, 's');
    for c in "ERASE 1 DISK".chars() {
        key(&mut app, c);
    }
    press(&mut app, KeyCode::Enter);
    tick(&mut app, 1000); // 4s left
    // Any key aborts during countdown.
    press(&mut app, KeyCode::Esc);
    assert_eq!(app.screen, Screen::Disks);
    assert!(app.jobs.is_empty(), "abort must not have started a job");
    assert!(tick(&mut app, 60_000).is_empty());
}

#[test]
fn every_key_aborts_the_countdown() {
    for (code, control) in [
        (KeyCode::Up, false),
        (KeyCode::Enter, false),
        (KeyCode::Char('x'), false),
        (KeyCode::Other, false),
        (KeyCode::Char('c'), true),
    ] {
        let mut app = new_app();
        key(&mut app, ' ');
        key(&mut app, 's');
        type_phrase(&mut app, "erase 1 disk");
        tick(&mut app, 1000);
        app.on_key(KeyEvent { code, control }, 0);
        assert!(tick(&mut app, 60_000).is_empty(), "{code:?} must abort");
        assert_ne!(app.screen, Screen::Wiping);
        assert_eq!(app.exit.is_some(), control);
    }
}

#[test]
fn every_screen_renders_without_panic() {
    let mut app = new_app();
    render(&app); // Disks
    app.show_help = true;
    render(&app);
    app.show_help = false;

    key(&mut app, ' ');
    key(&mut app, 's');
    render(&app); // Confirm (typing)
    for c in "ERASE 1 DISK".chars() {
        key(&mut app, c);
    }
    press(&mut app, KeyCode::Enter);
    assert!(render(&app).contains("Starting in 5s - press ANY key to ABORT."));
    tick(&mut app, 6000);
    render(&app); // Wiping
}

#[test]
fn tiny_terminal_does_not_panic() {
    // Pathological small sizes are a classic TUI crash. We must survive them.
    let app = new_app();
    render(&app);
    for (w, h) in [(1u16, 1u16), (4, 2), (10, 3), (20, 5), (80, 24)] {
        let area = Rect { x: 0, y: 0, width: w, height: h };
        for (mw, mh) in [(64u16, 18u16), (56, 8)] {
            let r = centered(area, mw, mh);
            assert!(r.x + r.width <= w && r.y + r.height <= h);
        }
    }
    assert_eq!(
        centered(Rect { x: 2, y: 1, width: 80, height: 24 }, 64, 18),
        Rect { x: 10, y: 4, width: 64, height: 18 }
    );
}

#[test]
fn scheme_navigation_wraps() {
    let mut app = new_app();
    let total = app.methods.len();
    let start = app.method_idx;
    for _ in 0..total {
        press(&mut app, KeyCode::Right);
    }
    assert_eq!(app.method_idx, start, "a full cycle returns to the start");
    press(&mut app, KeyCode::Left);
    assert_eq!(app.method_idx, (start + total - 1) % total);
}

#[test]
fn ctrl_c_requests_quit_not_kill() {
    let mut app = new_app();
    app.on_key(KeyEvent { code: KeyCode::Char('c'), control: true }, 0);
    // No running jobs, not pid1 → immediate clean exit request.
    assert!(app.exit.is_some());
}

#[test]
fn quitting_with_running_jobs_cancels_them_first() {
    let (mut app, launch) = started();
    key(&mut app, 'q');
    assert!(app.confirm_quit && app.exit.is_none());
    assert!(render(&app).contains("Wipes are still running. Quitting cancels them."));
    key(&mut app, 'n');
    assert!(!app.confirm_quit);
    key(&mut app, 'q');
    key(&mut app, 'y');
    assert!(app.jobs[0].cancel_requested());
    tick(&mut app, 50);
    assert_eq!(app.exit, None, "the worker is still running");
    work(&mut app, 0, launch);
    tick(&mut app, 50);
    assert_eq!(app.exit, Some(ExitAction::Quit));
    assert_eq!(app.jobs[0].report().map(|r| r.status), Some(JobStatus::Cancelled));
}

#[test]
fn a_single_job_can_be_cancelled() {
    let (mut app, launch) = started();
    key(&mut app, 'c');
    assert!(render(&app).contains("Cancel the wipe of sda?"));
    key(&mut app, 'n');
    assert!(!app.jobs[0].cancel_requested());
    key(&mut app, 'c');
    key(&mut app, 'y');
    assert!(app.jobs[0].cancel_requested());
    work(&mut app, 0, launch);
    assert_eq!(app.jobs[0].phase(), Phase::Cancelled);
    tick(&mut app, 50);
    assert_eq!(app.screen, Screen::Summary);
    assert!(!app.session_report.as_ref().unwrap().all_succeeded());
    assert!(render(&app).contains("CANCELLED"));
}

#[test]
fn appliance_leaves_by_reboot_or_power_off() {
    for (c, want) in [('r', ExitAction::Reboot), ('p', ExitAction::PowerOff)] {
        let mut app = App::new(true, true, sys(), scan(), 0);
        key(&mut app, 'q');
        assert!(app.confirm_quit && app.exit.is_none());
        assert!(render(&app).contains("power off"));
        key(&mut app, c);
        assert_eq!(app.exit, Some(want));
    }
}

#[test]
fn overwrite_options() {
    let mut app = new_app();
    assert_eq!(app.verify, VerifyMode::LastPass);
    key(&mut app, 'v');
    assert_eq!(app.verify, VerifyMode::AllPasses);
    for _ in 0..20 {
        key(&mut app, '+');
    }
    assert_eq!(app.rounds, 9);
    for _ in 0..20 {
        key(&mut app, '-');
    }
    assert_eq!(app.rounds, 1);
    key(&mut app, 'b');
    assert!(app.final_blank && app.spec().unwrap().final_blank);
    // A firmware method has none of them.
    while !app.is_firmware() {
        press(&mut app, KeyCode::Right);
    }
    assert!(app.spec().is_none() && app.current_scheme().is_none());
    let before = (app.verify, app.rounds, app.final_blank);
    for c in ['v', '+', 'b'] {
        key(&mut app, c);
    }
    assert_eq!((app.verify, app.rounds, app.final_blank), before);
    assert!(app.work_fits());
}

#[test]
fn rescans_keep_what_is_still_there() {
    let mut app = new_app();
    key(&mut app, ' ');
    assert_eq!(app.selected, vec!["sda".to_string()]);
    assert_eq!(key(&mut app, 'r'), Effect::Rescan);
    app.rescanned(scan(), 0);
    assert_eq!(app.selected, vec!["sda".to_string()]);
    assert_eq!(app.status.as_ref().unwrap().0, "disk list rescanned");
    app.refresh_disks(Ok(Vec::new()), 0);
    assert!(app.selected.is_empty() && app.disks.is_empty());
    assert_eq!(app.cursor, 0);
    app.refresh_disks(Err(CoreError::Io("EIO".to_string())), 0);
    assert_eq!(app.status.as_ref().unwrap().0, "disk scan failed: I/O error: EIO");
}

#[test]
fn status_messages_expire() {
    let mut app = new_app();
    app.flash("hello".to_string(), 1_000_000_000);
    app.on_tick(100, 4_999_999_999, 0);
    assert!(app.status.is_some());
    app.on_tick(100, 5_000_000_001, 0);
    assert!(app.status.is_none());
}

#[test]
fn reports_are_saved_from_the_summary() {
    let (mut app, launch) = started();
    work(&mut app, 0, launch);
    tick(&mut app, 50);
    assert_eq!(key(&mut app, 'w'), Effect::SaveReport);
    app.report_saved(Err("disk full".to_string()), 0);
    assert_eq!(app.status.as_ref().unwrap().0, "could not save report: disk full");
    app.report_saved(Ok(("/tmp/r.json".to_string(), "ab12".to_string())), 0);
    assert_eq!(
        app.status.as_ref().unwrap().0,
        "report + Ed25519 signature saved to /tmp/r.json (key ab12)"
    );
    assert!(render(&app).contains("Report written: /tmp/r.json"));
    // A new session starts over.
    assert_eq!(key(&mut app, 'n'), Effect::Refresh);
    assert_eq!(app.screen, Screen::Disks);
    assert!(app.jobs.is_empty() && app.session_report.is_none());
}

#[test]
fn jobs_without_a_worker_are_taken_back() {
    let (mut app, _) = started();
    assert_eq!((app.cursor, app.disk_cursor), (0, 0));
    app.disk_cursor = 1;
    app.job_not_started(0, "EAGAIN".to_string(), 0);
    assert_eq!(app.cursor, 1, "the highlighted disk is the one from before");
    assert_eq!(app.screen, Screen::Disks);
    assert!(app.jobs.is_empty());
    assert_eq!(app.status.as_ref().unwrap().0, "no jobs could be started");
}

#[test]
fn roles_tell_danger() {
    let mut app = new_app();
    key(&mut app, ' ');
    let rows = draw_disks(&app, &Glyphs::plain());
    assert_eq!(rows.len(), 3);
    assert_eq!(rows[1][4].text, "WILL ERASE");
    assert_eq!(rows[1][4].role, Role::Danger);
    assert_eq!(rows[2][4].text, "mounted");
    assert_eq!(
        rows[1][3].text,
        format!("{:<11} {:<28} {:>9} {:<6} {:<5} ", "sda", "Fast sda", "65.5 KB", "DEMO", "SSD")
    );
    assert_eq!(
        rows[0][0].text,
        format!(
            "    {:<11} {:<28} {:>9} {:<6} {:<5} {}",
            "DEVICE", "MODEL", "SIZE", "BUS", "TYPE", "STATE"
        )
    );
    assert_eq!(
        header_right(&app, &Glyphs::fancy())[0].text,
        "4 cores │ 8.00 GB │ Linux 6.1"
    );
    assert_eq!(
        header_right(&app, &Glyphs::plain())[0].text,
        "4 cores | 8.00 GB | Linux 6.1"
    );
}
