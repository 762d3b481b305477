//! Rendering-integrity guards: every glyph that the interface shows must be
//! exactly one column wide, or the borders behind it drift.

use std::time::Duration;

use dban::algorithm::VerifyMode;
use dban::app::{App, KeyCode, KeyEvent, Screen};
use dban::binary64::ROUNDS_TO_2_64;
use dban::demo::DemoProvider;
use dban::device::{human_bytes, wants_real};
use dban::engine::{spawn_firmware, throttle, JobReport, JobStatus, Phase};
use dban::firmware::{detect_support, FirmwareMethod};
use dban::report::{report_dir, SessionReport};
use dban::safety::SafetyGate;
use dban::speed::{fmt_duration, fmt_secs, SpeedTracker};
use dban::sysinfo::collect;
use dban::theme::{detect, show_text, Glyphs};
use dban::ui::{
    draw_confirm, draw_disks, draw_help, draw_hints, draw_quit_modal, draw_scheme_panel, draw_status, draw_summary, draw_wiping,
    gauge, header_left, header_right, pulse, summary_title, Role, Span, NO_DISKS, PULSE_STEPS,
};
use unicode_width::UnicodeWidthChar;

fn app() -> App {
    let found = DemoProvider::new("/tmp".to_string())
        .disks()
        .into_iter()
        .map(|(disk, _)| {
            let support = detect_support(&disk, None, None);
            (disk, support)
        })
        .collect();
    App::new(true, false, collect(8, None, None, None), Ok(found), 0)
}

fn press(app: &mut App, code: KeyCode) {
    app.on_key(KeyEvent { code, control: false }, 0);
}

fn assert_all_width_one(lines: &[Vec<Span>], ctx: &str) {
    for line in lines {
        for span in line {
            for c in span.text.chars() {
                assert_eq!(c.width(), Some(1), "{ctx}: {c:?} in {:?}", span.text);
                // No glyph that a font may draw in two columns.
                let safe = (' '..='~').contains(&c)
                    || ('\u{2500}'..='\u{259f}').contains(&c)
                    || ('\u{2800}'..='\u{28ff}').contains(&c)
                    || "‹›".contains(c);
                assert!(safe, "{ctx}: {c:?} in {:?}", span.text);
            }
        }
    }
}

fn assert_ascii(lines: &[Vec<Span>]) {
    for line in lines {
        for span in line {
            assert!(span.text.is_ascii(), "{:?}", span.text);
        }
    }
}

#[test]
fn console_theme_is_ascii_only() {
    let g = Glyphs::plain();
    let mut a = app();
    press(&mut a, KeyCode::Char(' '));
    for _ in 0..a.methods.len() {
        press(&mut a, KeyCode::Char('>'));
        assert_ascii(&draw_scheme_panel(&a, &g));
    }
    assert_ascii(&[header_left(&a, &g), header_right(&a, &g), draw_hints(&a, &g)]);
    assert_ascii(&draw_disks(&a, &g));
    assert_ascii(&draw_help(&g));
    press(&mut a, KeyCode::Char('s'));
    assert_ascii(&draw_confirm(&a, &g).unwrap());
    press(&mut a, KeyCode::Enter);
    let status = draw_status(&a, &g).unwrap();
    assert_eq!(status[0].text, " phrase does not match - type it exactly");
    assert_eq!(show_text("└ ‹é›│⠋—", false), "` <?>|?-");
    assert_eq!(show_text("└ ‹é›│⠋—", true), "└ ‹?›│⠋-");
}

#[test]
fn the_screen_reads_as_documented() {
    let g = Glyphs::fancy();
    let a = app();
    let text = |l: Vec<Span>| l.into_iter().map(|s| s.text).collect::<String>();
    assert_eq!(text(header_left(&a, &g)), "DBAN  secure disk sanitization  [SIMULATION]");
    let mut panel = draw_scheme_panel(&a, &g);
    assert_eq!(
        text(panel.remove(0)),
        "‹ NIST 800-88 Clear ›   1/17   1 pass(es)    RECOMMENDED"
    );
    assert_eq!(
        text(panel.remove(1)),
        "verify [last pass]  rounds [1]  final blank [off]    1 write pass(es)"
    );
    assert!(text(draw_hints(&a, &g)).starts_with(" up/dn  move   spc  select   </>  method "));
}

#[test]
fn angle_brackets_pick_the_method() {
    let mut a = app();
    press(&mut a, KeyCode::Char('>'));
    assert_eq!(a.method_idx, 1);
    press(&mut a, KeyCode::Char('<'));
    press(&mut a, KeyCode::Char('<'));
    assert_eq!(a.method_idx, 16);
}

#[test]
fn no_wide_glyphs_on_any_screen() {
    for g in [Glyphs::fancy(), Glyphs::plain()] {
        // Drive the app through every screen and look at each.
        let mut a = app();
        assert_all_width_one(&[header_left(&a, &g), header_right(&a, &g), draw_hints(&a, &g)], "header");
        assert_all_width_one(&draw_disks(&a, &g), "disks");
        assert_all_width_one(&draw_scheme_panel(&a, &g), "method");

        // Select a disk and open the confirm screen.
        press(&mut a, KeyCode::Char(' '));
        assert_all_width_one(&draw_scheme_panel(&a, &g), "method");
        press(&mut a, KeyCode::Char('s'));
        assert_eq!(a.screen, Screen::Confirm);
        assert_all_width_one(&draw_confirm(&a, &g).unwrap(), "confirm-typing");
        for c in "ERASE 1 DISK".chars() {
            press(&mut a, KeyCode::Char(c));
        }
        assert_all_width_one(&draw_confirm(&a, &g).unwrap(), "confirm-typed");
        press(&mut a, KeyCode::Enter);
        assert_all_width_one(&draw_confirm(&a, &g).unwrap(), "confirm-countdown");

        // Into the wipe.
        a.on_tick(6000, 0, 0);
        assert_eq!(a.screen, Screen::Wiping);
        assert_all_width_one(&[draw_wiping(&a, 0, &g, "—"), draw_hints(&a, &g)], "wiping");

        // Modals.
        assert_all_width_one(&draw_help(&g), "help");
        assert_all_width_one(&draw_quit_modal(&a, &g), "quit-modal");
        for k in 0..20 {
            let frame = g.spinner(k);
            assert!(frame.chars().all(|c| c.width() == Some(1)));
        }
    }
    assert!(NO_DISKS.is_ascii());
}

#[test]
fn cursor_and_selection_markers_render() {
    // The cursor highlight symbol and the selection block must actually appear
    // once a disk is selected, in the fancy theme.
    let mut a = app();
    press(&mut a, KeyCode::Char(' ')); // select first disk
    let mut text = String::new();
    for line in draw_disks(&a, &Glyphs::fancy()) {
        for span in line {
            text.push_str(&span.text);
        }
        text.push('\n');
    }
    assert!(text.contains('█'), "selection block should be visible");
    assert!(text.contains('▌'), "cursor bar should be visible");
    assert!(
        text.contains("WILL ERASE"),
        "selected disk should be flagged"
    );
}

#[test]
fn console_gets_the_plain_theme() {
    let term = |s: &str| Some(s.to_string());
    assert!(!detect(true, false, &term("xterm-256color")));
    assert!(!detect(false, true, &term("xterm-256color")));
    assert!(!detect(false, false, &term("linux")));
    assert!(detect(false, false, &term("xterm-256color")));
    assert!(Glyphs::fancy().rounded && !Glyphs::plain().rounded);
    assert_eq!(Glyphs::fancy().spinner(0), Glyphs::fancy().spinner(10));
    assert_eq!(Glyphs::plain().spinner(1), Glyphs::plain().spinner(5));
}

#[test]
fn real_disks_need_root_or_the_appliance() {
    assert!(!wants_real(true, false, true, true));
    assert!(wants_real(true, true, false, false));
    assert!(wants_real(false, true, false, false));
    assert!(wants_real(false, false, true, false));
    assert!(wants_real(false, false, false, true));
    assert!(!wants_real(false, false, false, false));
}

#[test]
fn durations() {
    assert_eq!(fmt_secs(0), "0s");
    assert_eq!(fmt_secs(59), "59s");
    assert_eq!(fmt_secs(60), "1m00s");
    assert_eq!(fmt_secs(3599), "59m59s");
    assert_eq!(fmt_secs(3600), "1h00m");
    assert_eq!(fmt_secs(7325), "2h02m");
    assert_eq!(fmt_duration(1_499_999_999), "1s");
    assert_eq!(fmt_duration(1_500_000_000), "2s");
    assert_eq!(fmt_duration(0), "0s");
    // A double is too coarse to tell the first of these from half a second more.
    let span: u128 = 16_777_319_499_999_999;
    assert_eq!(fmt_duration(span), "4660h22m");
    assert_eq!(fmt_duration(span - 10), "4660h21m");
    assert_eq!(fmt_duration(u64::MAX as u128 * 1_000_000_000), fmt_secs(u64::MAX));
}

/// Numbers of all lengths.
fn samples(mut seed: u64) -> Vec<u64> {
    let mut v = Vec::new();
    for bits in 1..=64 {
        for _ in 0..3 {
            seed = seed.wrapping_mul(6_364_136_223_846_793_005).wrapping_add(1_442_695_040_888_963_407);
            v.push((seed ^ (seed >> 29)) >> (64 - bits));
        }
        v.push(u64::MAX >> (64 - bits));
    }
    v
}

#[test]
fn durations_round_as_doubles_do() {
    for secs in samples(1) {
        for nanos in [0, 1, 499_999_999, 500_000_000, 500_000_001, 999_999_999, (secs % 1_000_000_000) as u32] {
            let d = Duration::new(secs, nanos);
            assert_eq!(fmt_duration(d.as_nanos()), fmt_secs(d.as_secs_f64().round() as u64), "{d:?}");
        }
    }
}

#[test]
fn time_left_rounds_as_doubles_do() {
    let times = samples(2);
    let lefts = samples(4);
    for (i, bytes) in samples(3).into_iter().enumerate() {
        for (j, ns) in times.iter().enumerate().skip(i % 7).step_by(7) {
            let mut t = SpeedTracker::new();
            t.push(0, 0);
            t.push(*ns, bytes);
            let left = lefts[(i * 31 + j * 17) % lefts.len()];
            let dt = Duration::from_nanos(*ns).as_secs_f64();
            let bps = if dt <= 0.0 { 0.0 } else { bytes as f64 / dt };
            let expected = if bps <= 1.0 {
                None
            } else {
                Some(Duration::from_secs_f64(left as f64 / bps).as_nanos())
            };
            assert_eq!(t.eta(0, left), expected, "{bytes} bytes in {ns} ns, {left} left");
        }
    }
}

#[test]
fn pacing_rounds_as_doubles_do() {
    assert_eq!(throttle(0, 2, 3, u64::MAX), Some(666_666_667));
    assert_eq!(throttle(666_666_666, 2, 3, u64::MAX), Some(1));
    assert_eq!(throttle(666_666_667, 2, 3, u64::MAX), None);
    assert_eq!(throttle(0, 0, 3, u64::MAX), None);
    for done in samples(5) {
        for bps in samples(6) {
            if bps == 0 || (bps == 1 && done >= ROUNDS_TO_2_64) {
                continue;
            }
            let due = Duration::from_secs_f64(done as f64 / bps as f64).as_nanos();
            let nap = throttle(0, done, bps, u64::MAX).unwrap_or(0);
            assert_eq!(u128::from(nap), due.min(u128::from(u64::MAX)), "{done} bytes at {bps}");
        }
    }
    assert_eq!((ROUNDS_TO_2_64 - 1) as f64, 18_446_744_073_709_549_568.0);
    assert_eq!(ROUNDS_TO_2_64 as f64, 18_446_744_073_709_551_616.0);
}

#[test]
fn byte_counts_round_as_doubles_do() {
    let units = ["B", "KB", "MB", "GB", "TB", "PB"];
    for n in samples(7) {
        let mut value = n as f64;
        let mut unit = 0;
        while value >= 1000.0 && unit < 5 {
            value /= 1000.0;
            unit += 1;
        }
        let expected = if unit == 0 {
            format!("{n} B")
        } else if value >= 100.0 {
            format!("{value:.0} {}", units[unit])
        } else if value >= 10.0 {
            format!("{value:.1} {}", units[unit])
        } else {
            format!("{value:.2} {}", units[unit])
        };
        assert_eq!(human_bytes(n), expected);
    }
}

#[test]
fn throughput_over_the_window() {
    let s: u64 = 1_000_000_000;
    let mut t = SpeedTracker::new();
    assert_eq!(t.rate(), None);
    assert_eq!(t.eta(0, 100), None);
    t.push(0, 0);
    t.push(2 * s, 200);
    assert_eq!(t.rate(), Some((200, 2 * s)));
    // 800 bytes are left at 100 bytes per second.
    assert_eq!(t.eta(200, 1000), Some(8 * s as u128));
    // Two bytes are left at three bytes per second.
    let mut third = SpeedTracker::new();
    third.push(0, 0);
    third.push(s, 3);
    assert_eq!(third.eta(3, 5), Some(666_666_667));
    // One byte per second is too slow to judge.
    let mut slow = SpeedTracker::new();
    slow.push(0, 0);
    slow.push(s, 1);
    assert_eq!(slow.eta(1, 5), None);
    // Samples older than five seconds are dropped.
    t.push(7 * s, 700);
    assert_eq!(t.rate(), Some((500, 5 * s)));
}

fn dummy_job(status: JobStatus) -> JobReport {
    JobReport {
        disk_name: "sda".into(),
        disk_model: "Test".into(),
        disk_serial: "S1".into(),
        disk_size_bytes: 1024,
        method_id: "nist-clear".into(),
        method_name: "NIST 800-88 Clear".into(),
        firmware: false,
        rounds: 1,
        verify: VerifyMode::LastPass,
        pass_count: 1,
        passes_completed: 1,
        status,
        error: None,
        started_unix: 1,
        finished_unix: 2,
        duration_ns: 1_000_000_000,
        bytes_written: 1024,
        bytes_verified: 1024,
        write_ns: 1_000_000_000,
    }
}

#[test]
fn success_aggregation() {
    let host = collect(1, None, None, None);
    let ok = SessionReport::new(host.clone(), true, vec![dummy_job(JobStatus::Success)], 42);
    assert!(ok.all_succeeded());
    let bad = SessionReport::new(host, true, vec![dummy_job(JobStatus::VerifyFailed)], 42);
    assert!(!bad.all_succeeded());
}

#[test]
fn one_bad_job_spoils_the_session() {
    let jobs = vec![
        dummy_job(JobStatus::Success),
        dummy_job(JobStatus::Cancelled),
        dummy_job(JobStatus::Success),
    ];
    let report = SessionReport::new(collect(1, None, None, None), true, jobs, 42);
    assert!(!report.all_succeeded());
    assert_eq!(report.tool, "scour");
    assert_eq!(report.tool_version, dban::VERSION);
    assert_eq!(report.file_name(), "scour-report-42.json");
    let empty = SessionReport::new(collect(1, None, None, None), true, Vec::new(), 42);
    assert!(empty.all_succeeded());
}

#[test]
fn summaries_name_what_went_wrong() {
    let mut a = app();
    let mut failed = dummy_job(JobStatus::Failed);
    failed.error = Some("worker thread panicked".to_string());
    failed.duration_ns = 61_000_000_000;
    a.session_report = Some(SessionReport::new(a.sys.clone(), true, vec![failed], 1));
    let lines = draw_summary(&a, &Glyphs::fancy(), &vec!["7".to_string()]).unwrap();
    assert_all_width_one(&lines, "summary");
    assert_eq!(lines[0][2].text, format!("{:>10} ", "FAILED"));
    assert_eq!(lines[0][2].role, Role::Danger);
    assert!(lines[0][3].text.ends_with(" passes │ 1m01s │ 7 MB/s"));
    assert_eq!(lines[0][3].text, "NIST 800-88 Clear │ 1/1 passes │ 1m01s │ 7 MB/s");
    assert_eq!(lines[1][0].text, "      └ worker thread panicked");

    // A firmware erase has no passes.
    let mut erased = dummy_job(JobStatus::Success);
    erased.method_name = "NVMe Format".to_string();
    erased.firmware = true;
    erased.pass_count = 0;
    a.session_report = Some(SessionReport::new(a.sys.clone(), true, vec![erased], 1));
    let lines = draw_summary(&a, &Glyphs::fancy(), &vec!["0".to_string()]).unwrap();
    assert_eq!(lines[0][3].text, "NVMe Format │ 1s │ 0 MB/s");
    assert_eq!(summary_title(true), (" Complete ", Role::Good));
    assert_eq!(summary_title(false).1, Role::Danger);
}

#[test]
fn gauges_show_errors() {
    let mut a = app();
    press(&mut a, KeyCode::Char(' '));
    press(&mut a, KeyCode::Char('s'));
    for c in "ERASE 1 DISK".chars() {
        press(&mut a, KeyCode::Char(c));
    }
    press(&mut a, KeyCode::Enter);
    a.on_tick(6000, 0, 0);
    assert_eq!(gauge(&a, 0, &Glyphs::fancy(), "12.5%"), ("12.5%".to_string(), Role::Accent));
    assert_eq!(pulse(&a, 0), None);
    a.jobs[0].progress.error = Some("boom".to_string());
    assert_eq!(gauge(&a, 0, &Glyphs::fancy(), "12.5%").0, "boom");

    // A drive that reports no progress gets a pulse in place of a percentage.
    a.jobs[0].progress.indeterminate = true;
    assert_eq!(gauge(&a, 0, &Glyphs::fancy(), "0.0%").0, "boom");
    assert_eq!(pulse(&a, 0), None);
    a.jobs[0].progress.error = None;
    assert_eq!(gauge(&a, 0, &Glyphs::fancy(), "0.0%").0, "in progress");
    a.spinner_frame = PULSE_STEPS + 3;
    assert_eq!(pulse(&a, 0), Some(3));
    a.jobs[0].progress.phase = Phase::Done;
    assert_eq!(gauge(&a, 0, &Glyphs::fancy(), "100.0%"), ("100.0%".to_string(), Role::Good));
    assert_eq!(pulse(&a, 0), None);
}

#[test]
fn only_real_firmware_erases_pulse() {
    let method = FirmwareMethod::NvmeFormat { crypto: true };
    for simulated in [false, true] {
        let (mut disk, _) = DemoProvider::new("/tmp".to_string()).disks().remove(1);
        disk.simulated = simulated;
        let mut gate = SafetyGate::new(1).unwrap();
        for c in "ERASE 1 DISK".chars() {
            gate.input_char(c);
        }
        gate.confirm().unwrap();
        let token = gate.tick(5_000).unwrap();
        let mut erase = spawn_firmware(&disk, method, &token).unwrap();
        erase.begin();
        assert_eq!(erase.progress().snapshot().indeterminate, !simulated);
    }
}

#[test]
fn appliance_reports_go_to_tmp() {
    assert_eq!(report_dir(true), Some("/tmp"));
    assert_eq!(report_dir(false), None);
}

#[test]
fn firmware_panel_has_no_overwrite_options() {
    let mut a = app();
    assert_eq!(draw_scheme_panel(&a, &Glyphs::plain()).len(), 3);
    while a.current_firmware() != Some(FirmwareMethod::NvmeFormat { crypto: false }) {
        press(&mut a, KeyCode::Right);
    }
    assert_eq!(draw_scheme_panel(&a, &Glyphs::plain()).len(), 2);
}
