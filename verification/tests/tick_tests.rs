use sequencer::drag::{DragEvent, DragPhase, DragSession, DropPhase, DropZoneInput, TrackPress};
use sequencer::model::{SeqConfig, Sequencer, SequencerState, Track};
use sequencer::tick::{sequencer_tick, TickInput};
use sequencer::trigger::{PlayEvent, TriggerEmitter};

fn sequencer() -> Sequencer {
    let config = SeqConfig {
        duration: 8000,
        track_width: 500,
        default_note_width: 500,
        n_tracks: 4,
        loop_on_wrap: false,
    };
    let tracks = ["Jump", "Attack", "Wait", "Backward"]
        .iter()
        .map(|n| Track { name: n.to_string() })
        .collect();
    Sequencer::new(config, tracks)
}

fn idle_zones() -> Vec<DropZoneInput> {
    (0..4u64)
        .map(|t| DropZoneInput { track: t, phase: DropPhase::Inactive, incoming: None })
        .collect()
}

fn quiet_tick(delta: u64) -> TickInput {
    TickInput {
        presses: Vec::new(),
        any_notes_interacted: false,
        drag_events: Vec::new(),
        drop_zones: idle_zones(),
        delta,
    }
}

fn run(
    s: &mut Sequencer,
    session: &mut Option<DragSession>,
    emitter: &mut TriggerEmitter,
    input: TickInput,
) -> Vec<PlayEvent> {
    sequencer_tick(s, session, emitter, &input)
}

#[test]
fn press_drag_release_play_end_to_end() {
    // Press on track 0 at half the 500-pixel track of an 8000-unit
    // timeline: the note lands at 4000 less half the default width, 3750.
    // Dragging it 100 px right and releasing recomputes the start time
    // from the final offset (234 + 100 px -> 5344). Advancing the clock
    // across the note fires exactly one trigger.
    let mut s = sequencer();
    let mut session: Option<DragSession> = None;
    let mut emitter = TriggerEmitter::new();

    let mut place = quiet_tick(0);
    place.presses = vec![TrackPress { track: 0, cursor_x: 250 }];
    run(&mut s, &mut session, &mut emitter, place);
    assert_eq!(s.notes.len(), 1);
    let id = s.notes[0].id;
    assert_eq!(s.notes[0].note.pos, 3750);

    let mut start = quiet_tick(0);
    start.any_notes_interacted = true;
    start.drag_events = vec![DragEvent {
        note: id,
        phase: DragPhase::DragStart,
        origin: Some(2000),
        position: Some(2000),
    }];
    run(&mut s, &mut session, &mut emitter, start);
    assert_eq!(session.unwrap().note, id);

    let mut drag = quiet_tick(0);
    drag.any_notes_interacted = true;
    drag.drag_events = vec![DragEvent {
        note: id,
        phase: DragPhase::Dragging,
        origin: Some(2000),
        position: Some(2100),
    }];
    run(&mut s, &mut session, &mut emitter, drag);
    assert_eq!(s.notes[0].left, 334);

    let mut release = quiet_tick(0);
    release.drag_events = vec![DragEvent {
        note: id,
        phase: DragPhase::DragEnd,
        origin: None,
        position: None,
    }];
    run(&mut s, &mut session, &mut emitter, release);
    assert!(session.is_none());
    assert_eq!(s.notes[0].note.pos, 5344);

    // Play the timeline in 100-unit frames and count the triggers.
    s.state = SequencerState::Playing;
    let mut fired: usize = 0;
    while matches!(s.state, SequencerState::Playing) {
        let events = run(&mut s, &mut session, &mut emitter, quiet_tick(100));
        // Nothing fires while the cursor is before the note.
        if s.play_pos > 0 && s.play_pos <= 5344 {
            assert_eq!(events.len(), 0);
        }
        fired += events.len();
    }
    assert_eq!(fired, 1);
    assert_eq!(s.play_pos, 0);
    assert!(matches!(s.state, SequencerState::Stopped));
}

#[test]
fn tick_orders_clock_before_sampling() {
    // The clock advances before the emitter samples, so a tick that moves
    // the cursor into a note fires it that same tick.
    let mut s = sequencer();
    s.spawn_note(0, 2000);
    s.state = SequencerState::Playing;
    s.play_pos = 1950;
    let mut session: Option<DragSession> = None;
    let mut emitter = TriggerEmitter::new();
    let events = run(&mut s, &mut session, &mut emitter, quiet_tick(100));
    assert_eq!(s.play_pos, 2050);
    assert_eq!(events.len(), 1);
}

#[test]
fn tick_with_no_drop_zone_active_snaps_back() {
    // Mid-drag over empty space: the note moved to another track earlier
    // in the gesture returns to its origin track on the next tick.
    let mut s = sequencer();
    let id = s.spawn_note(0, 1000);
    let mut session: Option<DragSession> = None;
    let mut emitter = TriggerEmitter::new();

    let mut enter = quiet_tick(0);
    enter.any_notes_interacted = true;
    enter.drag_events = vec![DragEvent {
        note: id,
        phase: DragPhase::DragStart,
        origin: Some(0),
        position: Some(0),
    }];
    enter.drop_zones[1] = DropZoneInput {
        track: 1,
        phase: DropPhase::Entered,
        incoming: Some(id),
    };
    run(&mut s, &mut session, &mut emitter, enter);
    assert_eq!(s.notes[0].track, 1);

    let mut idle = quiet_tick(0);
    idle.any_notes_interacted = true;
    run(&mut s, &mut session, &mut emitter, idle);
    assert_eq!(s.notes[0].track, 0);
    assert!(session.is_some());
}

#[test]
fn tick_stops_handling_drags_after_first_live_event() {
    let mut s = sequencer();
    let a = s.spawn_note(0, 1000);
    let b = s.spawn_note(1, 2000);
    let mut session: Option<DragSession> = None;
    let mut emitter = TriggerEmitter::new();
    let mut input = quiet_tick(0);
    input.any_notes_interacted = true;
    input.drag_events = vec![
        DragEvent { note: a, phase: DragPhase::DragStart, origin: Some(0), position: Some(10) },
        DragEvent { note: b, phase: DragPhase::DragStart, origin: Some(0), position: Some(10) },
    ];
    run(&mut s, &mut session, &mut emitter, input);
    // Only the first live gesture was handled this tick.
    assert_eq!(session.unwrap().note, a);
    assert_eq!(s.notes[0].left, 62 + 10);
    assert_eq!(s.notes[1].left, 125);
}

#[test]
fn tick_places_no_note_while_notes_are_interacted() {
    let mut s = sequencer();
    let mut session: Option<DragSession> = None;
    let mut emitter = TriggerEmitter::new();
    let mut input = quiet_tick(0);
    input.any_notes_interacted = true;
    input.presses = vec![TrackPress { track: 0, cursor_x: 250 }];
    run(&mut s, &mut session, &mut emitter, input);
    assert_eq!(s.notes.len(), 0);
}

#[test]
fn tick_emits_nothing_when_stopped() {
    let mut s = sequencer();
    s.spawn_note(0, 0);
    s.play_pos = 100;
    let mut session: Option<DragSession> = None;
    let mut emitter = TriggerEmitter::new();
    let events = run(&mut s, &mut session, &mut emitter, quiet_tick(100));
    assert_eq!(events.len(), 0);
    assert_eq!(s.play_pos, 100);
}
