use dban::safety::{ArmState, SafetyGate};
use dban::CoreError;

fn type_str(gate: &mut SafetyGate, s: &str) {
    for c in s.chars() {
        gate.input_char(c);
    }
}

#[test]
fn zero_disks_cannot_arm() {
    assert!(SafetyGate::new(0).is_err());
}

#[test]
fn phrase_depends_on_selection() {
    assert_eq!(SafetyGate::new(1).unwrap().phrase(), "ERASE 1 DISK");
    assert_eq!(SafetyGate::new(3).unwrap().phrase(), "ERASE 3 DISKS");
}

#[test]
fn wrong_phrase_is_rejected() {
    let mut g = SafetyGate::new(2).unwrap();
    type_str(&mut g, "ERASE 2 DISK"); // missing S
    assert!(!g.phrase_matches());
    assert!(g.confirm().is_err());
    // Still typing; the arming gate did not advance.
    assert!(matches!(g.state(), ArmState::Typing { .. }));
}

#[test]
fn lowercase_input_is_normalized() {
    let mut g = SafetyGate::new(1).unwrap();
    type_str(&mut g, "erase 1 disk");
    assert!(g.phrase_matches());
}

#[test]
fn control_chars_are_ignored() {
    let mut g = SafetyGate::new(1).unwrap();
    g.input_char('\x1b');
    g.input_char('\n');
    g.input_char('\t');
    assert_eq!(g.typed(), "");
}

#[test]
fn backspace_edits() {
    let mut g = SafetyGate::new(1).unwrap();
    type_str(&mut g, "ERASE 1 DISKX");
    g.backspace();
    assert!(g.phrase_matches());
}

#[test]
fn full_ceremony_releases_exactly_one_token() {
    let mut g = SafetyGate::new(1).unwrap();
    type_str(&mut g, "ERASE 1 DISK");
    g.confirm().unwrap();
    assert!(g.tick(2_000).is_none());
    assert_eq!(g.countdown_remaining_ms(), Some(3_000));
    let token = g.tick(3_000);
    assert!(token.is_some());
    // Terminal: no second token, no re-confirm.
    assert!(g.tick(10_000).is_none());
    assert!(g.confirm().is_err());
}

#[test]
fn abort_during_countdown_disarms() {
    let mut g = SafetyGate::new(1).unwrap();
    type_str(&mut g, "ERASE 1 DISK");
    g.confirm().unwrap();
    g.tick(1_000);
    g.abort();
    assert!(g.is_aborted());
    assert!(g.tick(10_000).is_none(), "aborted gate must never release");
    assert!(g.confirm().is_err());
}

#[test]
fn cannot_confirm_without_typing() {
    let mut g = SafetyGate::new(1).unwrap();
    assert!(g.confirm().is_err());
}

#[test]
fn errors_tell_what_was_wrong() {
    assert!(matches!(SafetyGate::new(0), Err(CoreError::NothingSelected)));
    let mut g = SafetyGate::new(12).unwrap();
    assert_eq!(g.disk_count(), 12);
    assert_eq!(g.phrase(), "ERASE 12 DISKS");
    assert!(matches!(g.confirm(), Err(CoreError::PhraseMismatch)));
    type_str(&mut g, "Erase 12 Disks");
    g.confirm().unwrap();
    assert!(matches!(g.confirm(), Err(CoreError::InvalidState)));
    assert_eq!(g.typed(), "");
    assert!(!g.phrase_matches());
}

#[test]
fn released_gate_cannot_be_aborted() {
    let mut g = SafetyGate::new(1).unwrap();
    type_str(&mut g, "ERASE 1 DISK");
    g.confirm().unwrap();
    assert!(g.tick(5_000).is_some());
    g.abort();
    assert!(!g.is_aborted());
    assert_eq!(g.state().clone(), ArmState::Released);
    g.input_char('X');
    g.backspace();
    assert_eq!(g.countdown_remaining_ms(), None);
}

#[test]
fn backspace_on_nothing_typed() {
    let mut g = SafetyGate::new(1).unwrap();
    g.backspace();
    assert_eq!(g.typed(), "");
    g.input_char('é');
    g.input_char('~');
    g.input_char(' ');
    assert_eq!(g.typed(), "~ ");
}
