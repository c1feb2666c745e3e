use sequencer::model::{SeqConfig, Sequencer, SequencerState, Track};
use sequencer::trigger::TriggerEmitter;

fn sequencer() -> Sequencer {
    let config = SeqConfig {
        duration: 8000,
        track_width: 500,
        default_note_width: 1000,
        n_tracks: 1,
        loop_on_wrap: false,
    };
    Sequencer::new(config, vec![Track { name: "Jump".to_string() }])
}

#[test]
fn note_fires_exactly_once_while_cursor_dwells() {
    // A note at 2000, one second wide, fires once as the cursor crosses
    // from 1900 to 2100, and never again while the cursor stays inside
    // its span.
    let mut s = sequencer();
    s.spawn_note(0, 2000);
    s.state = SequencerState::Playing;
    let mut emitter = TriggerEmitter::new();

    s.play_pos = 1900;
    assert_eq!(emitter.play_note(&s).len(), 0);

    s.play_pos = 2100;
    let events = emitter.play_note(&s);
    assert_eq!(events.len(), 1);
    assert_eq!(events[0].0.pos, 2000);
    assert_eq!(events[0].0.width, 1000);

    for p in [2200u64, 2300, 2400] {
        s.play_pos = p;
        assert_eq!(emitter.play_note(&s).len(), 0);
    }
}

#[test]
fn boundaries_do_not_count_as_active() {
    let mut s = sequencer();
    s.spawn_note(0, 2000);
    let mut emitter = TriggerEmitter::new();
    s.play_pos = 2000;
    assert_eq!(emitter.play_note(&s).len(), 0);
    s.play_pos = 2500;
    assert_eq!(emitter.play_note(&s).len(), 1);
    s.play_pos = 3000;
    assert_eq!(emitter.play_note(&s).len(), 0);
}

#[test]
fn note_refires_on_a_later_pass() {
    // Leaving the span for a tick clears the carried set, so the note can
    // fire again when the cursor comes back after a wrap.
    let mut s = sequencer();
    s.spawn_note(0, 2000);
    let mut emitter = TriggerEmitter::new();
    s.play_pos = 2100;
    assert_eq!(emitter.play_note(&s).len(), 1);
    s.play_pos = 3500;
    assert_eq!(emitter.play_note(&s).len(), 0);
    s.play_pos = 2100;
    assert_eq!(emitter.play_note(&s).len(), 1);
}

#[test]
fn simultaneous_notes_fire_in_list_order() {
    let mut s = sequencer();
    s.spawn_note(0, 200);
    s.spawn_note(0, 100);
    let mut emitter = TriggerEmitter::new();
    s.play_pos = 300;
    let events = emitter.play_note(&s);
    assert_eq!(events.len(), 2);
    assert_eq!(events[0].0.pos, 200);
    assert_eq!(events[1].0.pos, 100);
}

#[test]
fn note_created_under_the_cursor_fires_on_its_first_tick() {
    // The note was absent from the carried set in the tick before its
    // creation, so it counts as newly active.
    let mut s = sequencer();
    let mut emitter = TriggerEmitter::new();
    s.play_pos = 2100;
    assert_eq!(emitter.play_note(&s).len(), 0);
    s.spawn_note(0, 2000);
    assert_eq!(emitter.play_note(&s).len(), 1);
}

#[test]
fn overlapping_notes_fire_independently() {
    let mut s = sequencer();
    s.spawn_note(0, 1000);
    s.spawn_note(0, 1400);
    let mut emitter = TriggerEmitter::new();
    s.play_pos = 1200;
    assert_eq!(emitter.play_note(&s).len(), 1);
    s.play_pos = 1450;
    // The first note stays active and does not refire; the second is new.
    let events = emitter.play_note(&s);
    assert_eq!(events.len(), 1);
    assert_eq!(events[0].0.pos, 1400);
}
