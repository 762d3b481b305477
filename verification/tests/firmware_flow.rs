//! Firmware-erase flow tests, driven through the public app state machine, on
//! tiny simulated disks (SATA, NVMe, USB).

use dban::app::{App, KeyCode, KeyEvent, Launch, MethodChoice, Screen};
use dban::device::{Bus, Disk, MediaKind};
use dban::engine::JobClock;
use dban::erase::{EraseAction, EraseEvent};
use dban::firmware::{detect_support, FirmwareMethod, FirmwareSupport};
use dban::sysinfo::collect;
use dban::theme::Glyphs;
use dban::ui::{draw_disks, draw_scheme_panel};
use dban::CoreError;

fn scan() -> Result<Vec<(Disk, FirmwareSupport)>, CoreError> {
    let mut found = Vec::new();
    for (name, bus, kind) in [
        ("sda", Bus::Sata, MediaKind::Ssd),
        ("nvme0n1", Bus::Nvme, MediaKind::Ssd),
        ("sdc", Bus::Usb, MediaKind::Ssd),
    ] {
        let disk = Disk {
            path: format!("{name}.img"),
            name: name.to_string(),
            model: format!("Sim {name}"),
            serial: format!("S-{name}"),
            size_bytes: 64 * 1024,
            bus,
            kind,
            removable: bus == Bus::Usb,
            lock: None,
            simulated: true,
            throttle_bps: None,
        };
        let support = detect_support(&disk, None, None);
        found.push((disk, support));
    }
    Ok(found)
}

fn press(app: &mut App, code: KeyCode) {
    app.on_key(KeyEvent { code, control: false }, 0);
}

fn key(app: &mut App, c: char) {
    press(app, KeyCode::Char(c));
}

fn app() -> App {
    App::new(true, false, collect(1, None, None, None), scan(), 0)
}

/// Point the method picker at a specific firmware method.
fn select_method(app: &mut App, want: FirmwareMethod) {
    let idx = app
        .methods
        .iter()
        .position(|m| *m == MethodChoice::Firmware(want))
        .expect("method present");
    app.method_idx = idx;
}

/// Move the cursor to the named disk and toggle it on.
fn toggle(app: &mut App, name: &str) {
    let idx = app.disks.iter().position(|d| d.name == name).unwrap();
    app.cursor = idx;
    key(app, ' ');
}

#[test]
fn firmware_methods_are_offered() {
    let app = app();
    let fw = app.methods.iter().filter(|m| m.is_firmware()).count();
    assert_eq!(fw, 6, "all six firmware methods should be in the picker");
}

#[test]
fn capability_is_detected_per_bus() {
    let app = app();
    let sata = app.support_of("sda").unwrap();
    let nvme = app.support_of("nvme0n1").unwrap();
    let usb = app.support_of("sdc").unwrap();
    assert!(sata.ata_secure_erase, "SATA disk should support ATA erase");
    assert!(nvme.nvme_format_user, "NVMe disk should support Format");
    assert!(!usb.any(), "USB disk should advertise no firmware erase");
    assert!(app.support_of("sdz").is_none());
}

#[test]
fn nvme_format_runs_to_completion() {
    let mut app = app();
    select_method(&mut app, FirmwareMethod::NvmeFormat { crypto: true });
    toggle(&mut app, "nvme0n1");
    assert_eq!(app.target_disks().len(), 1);

    key(&mut app, 's');
    assert_eq!(app.screen, Screen::Confirm);
    for c in "ERASE 1 DISK".chars() {
        key(&mut app, c);
    }
    press(&mut app, KeyCode::Enter);
    let launches = app.on_tick(6000, 0, 0); // burn the countdown
    assert_eq!(app.screen, Screen::Wiping);

    assert_eq!(launches.len(), 1);
    for (i, launch) in launches.into_iter().enumerate() {
        let (disk, mut erase) = match launch {
            Launch::Firmware { disk, erase } => (disk, erase),
            Launch::Wipe { .. } => panic!("a firmware erase was expected"),
        };
        assert_eq!(disk.name, "nvme0n1");
        let mut action = erase.begin();
        while !matches!(action, EraseAction::Stop) {
            action = erase.step(EraseEvent::Done, false);
        }
        let clock = JobClock { started_unix: 1, finished_unix: 2, duration_ns: 3 };
        let report = erase.finish(&disk, clock);
        app.jobs[i].observe(erase.progress().snapshot(), true, Some(report));
    }
    app.on_tick(50, 0, 0);
    assert_eq!(app.screen, Screen::Summary);
    let report = app.session_report.as_ref().unwrap();
    assert_eq!(report.jobs.len(), 1);
    assert!(report.all_succeeded());
    let job = &report.jobs[0];
    assert!(job.firmware, "report should be flagged as a firmware erase");
    assert_eq!(job.method_id, "nvme-format-crypto");
}

#[test]
fn unsupported_disk_is_skipped_not_erased() {
    let mut app = app();
    // ATA erase chosen, but only the USB disk is selected: it cannot do it.
    select_method(&mut app, FirmwareMethod::AtaSecureErase { enhanced: false });
    toggle(&mut app, "sdc"); // USB: no firmware support
    assert_eq!(app.selected_disks().len(), 1);
    assert_eq!(
        app.target_disks().len(),
        0,
        "USB disk is not a valid target"
    );

    key(&mut app, 's');
    assert_eq!(
        app.screen,
        Screen::Disks,
        "must not arm when no selected disk supports the method"
    );
    let rows = draw_disks(&app, &Glyphs::plain());
    assert_eq!(rows[3][4].text, "skip (n/a)");
}

#[test]
fn mixed_selection_targets_only_capable_disks() {
    let mut app = app();
    select_method(&mut app, FirmwareMethod::AtaSecureErase { enhanced: false });
    toggle(&mut app, "sda"); // SATA: supported
    toggle(&mut app, "sdc"); // USB: not supported
    assert_eq!(app.selected_disks().len(), 2);
    let targets = app.target_disks();
    assert_eq!(targets.len(), 1);
    assert_eq!(targets[0].name, "sda");
    assert!(app.is_selected(targets[0]));
    assert!(app.disk_supports_current(targets[0]));
    assert_eq!(app.method_name(), FirmwareMethod::AtaSecureErase { enhanced: false }.name());
    assert_eq!(
        draw_scheme_panel(&app, &Glyphs::plain())[1][0].text,
        FirmwareMethod::AtaSecureErase { enhanced: false }.description()
    );
}

#[test]
fn a_mixed_start_erases_only_the_capable_disk() {
    let mut app = app();
    select_method(&mut app, FirmwareMethod::AtaSecureErase { enhanced: true });
    toggle(&mut app, "sda");
    toggle(&mut app, "sdc");
    key(&mut app, 's');
    assert_eq!(app.screen, Screen::Confirm);
    // The phrase counts what will be erased.
    for c in "erase 1 disk".chars() {
        key(&mut app, c);
    }
    press(&mut app, KeyCode::Enter);
    let launches = app.on_tick(5000, 0, 0);
    assert_eq!(launches.len(), 1);
    assert_eq!(app.jobs.len(), 1);
    assert_eq!(app.jobs[0].name(), "sda");
}
