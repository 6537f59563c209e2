use synth_core::notes::{parse_note_message, MidiService, NoteEvent, NoteTracker};
use synth_core::state::SynthState;

fn press(t: &mut NoteTracker, note: u8) -> bool {
    t.on_midi_message(&[0x90, note, 100])
}

fn release(t: &mut NoteTracker, note: u8) -> bool {
    t.on_midi_message(&[0x80, note, 0])
}

#[test]
fn parses_note_on_and_off() {
    assert_eq!(parse_note_message(&[0x90, 60, 100]), Some(NoteEvent::Press(60)));
    assert_eq!(parse_note_message(&[0x80, 60, 64]), Some(NoteEvent::Release(60)));
    assert_eq!(parse_note_message(&[0x90, 61, 0]), Some(NoteEvent::Release(61)));
    assert_eq!(parse_note_message(&[0x90, 62, 1, 5]), Some(NoteEvent::Press(62)));
}

#[test]
fn ignores_short_and_foreign_messages() {
    assert_eq!(parse_note_message(&[]), None);
    assert_eq!(parse_note_message(&[0x90, 60]), None);
    assert_eq!(parse_note_message(&[0x91, 60, 100]), None);
    assert_eq!(parse_note_message(&[0x81, 60, 100]), None);
    assert_eq!(parse_note_message(&[0xB0, 7, 100]), None);
    let mut t = NoteTracker::new();
    assert!(!t.on_midi_message(&[0x91, 60, 100]));
    assert!(!t.on_midi_message(&[0x90, 60]));
    assert!(t.held_notes().is_empty());
    assert_eq!(t.last_active_note(), 0);
}

#[test]
fn starts_silent_on_note_zero() {
    let t = NoteTracker::new();
    assert!(!t.gate_open());
    assert_eq!(t.last_active_note(), 0);
}

#[test]
fn pressing_a_held_note_again_changes_nothing() {
    let mut t = NoteTracker::new();
    assert!(press(&mut t, 60));
    assert!(press(&mut t, 64));
    assert!(press(&mut t, 60));
    assert_eq!(t.held_notes(), vec![60, 64]);
    assert_eq!(t.last_active_note(), 64);
}

#[test]
fn releasing_an_unheld_note_changes_nothing() {
    let mut t = NoteTracker::new();
    press(&mut t, 60);
    assert!(release(&mut t, 72));
    assert_eq!(t.held_notes(), vec![60]);
    assert_eq!(t.last_active_note(), 60);
    assert!(t.gate_open());
}

#[test]
fn releasing_the_top_note_falls_back_to_the_one_below() {
    let mut t = NoteTracker::new();
    press(&mut t, 60);
    press(&mut t, 64);
    press(&mut t, 67);
    release(&mut t, 67);
    assert_eq!(t.held_notes(), vec![60, 64]);
    assert_eq!(t.last_active_note(), 64);
}

#[test]
fn releasing_a_lower_note_keeps_the_top() {
    let mut t = NoteTracker::new();
    press(&mut t, 60);
    press(&mut t, 64);
    press(&mut t, 67);
    release(&mut t, 64);
    assert_eq!(t.held_notes(), vec![60, 67]);
    assert_eq!(t.last_active_note(), 67);
}

#[test]
fn last_note_is_kept_once_everything_is_released() {
    let mut t = NoteTracker::new();
    press(&mut t, 60);
    press(&mut t, 64);
    release(&mut t, 64);
    release(&mut t, 60);
    assert!(!t.gate_open());
    assert!(t.held_notes().is_empty());
    assert_eq!(t.last_active_note(), 60);
}

#[test]
fn note_on_with_zero_velocity_releases() {
    let mut t = NoteTracker::new();
    press(&mut t, 60);
    assert!(t.on_midi_message(&[0x90, 60, 0]));
    assert!(!t.gate_open());
}

#[test]
fn service_publishes_gate_and_note() {
    let params = SynthState::new();
    let mut service = MidiService::new(params.clone());
    service.handle_message(&[0x90, 69, 90]);
    assert!(params.gate_open());
    assert_eq!(params.last_note(), 69);
    service.handle_message(&[0x90, 72, 90]);
    assert_eq!(params.last_note(), 72);
    service.handle_message(&[0x80, 72, 0]);
    assert!(params.gate_open());
    assert_eq!(params.last_note(), 69);
    service.handle_message(&[0x80, 69, 0]);
    assert!(!params.gate_open());
    assert_eq!(params.last_note(), 69);
    assert_eq!(service.note_tracker().held_notes(), Vec::<u8>::new());
}

#[test]
fn service_ignores_other_messages() {
    let params = SynthState::new();
    let mut service = MidiService::new(params.clone());
    service.handle_message(&[0x90, 69, 90]);
    service.handle_message(&[0xB0, 1, 2]);
    service.handle_message(&[0x80, 69]);
    assert!(params.gate_open());
    assert_eq!(params.last_note(), 69);
}
