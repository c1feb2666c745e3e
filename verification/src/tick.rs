//! Per-tick orchestration: the strict order in which the drag-drop
//! controller, the playback clock and the trigger emitter read and mutate
//! the shared sequencer state within one tick.

use vstd::prelude::*;

use crate::drag::{
    event_wf, is_live_phase, note_drag, note_move_between_tracks, note_move_inactive, press_wf,
    session_wf, spec_drag_step, spec_place, spec_reassign, spec_snap_back, track_interaction,
    zone_wf, DragEvent, DragPhase, DragSession, DropZoneInput, TrackPress,
};
use crate::geometry::MAX_TIME;
use crate::model::{spec_advance, SeqModel, Sequencer, SequencerState};
use crate::trigger::{spec_active_ids, spec_emitted, PlayEvent, TriggerEmitter};

verus! {

/// Everything the platform layer delivers for one tick.
pub struct TickInput {
    /// Pointer presses on tracks, in report order.
    pub presses: Vec<TrackPress>,
    /// Whether any note currently receives pointer interaction; presses
    /// place no note then.
    pub any_notes_interacted: bool,
    /// Drag signals for the notes whose gesture state changed, in report
    /// order.
    pub drag_events: Vec<DragEvent>,
    /// Every track's drop-zone state this tick.
    pub drop_zones: Vec<DropZoneInput>,
    /// The frame's duration, in time units.
    pub delta: u64,
}

/// The mathematical value of a tick's input.
pub struct TickModel {
    pub presses: Seq<TrackPress>,
    pub any_notes_interacted: bool,
    pub drag_events: Seq<DragEvent>,
    pub drop_zones: Seq<DropZoneInput>,
    pub delta: u64,
}

impl View for TickInput {
    type V = TickModel;

    open spec fn view(&self) -> TickModel {
        TickModel {
            presses: self.presses@,
            any_notes_interacted: self.any_notes_interacted,
            drag_events: self.drag_events@,
            drop_zones: self.drop_zones@,
            delta: self.delta,
        }
    }
}

/// Input the platform layer may deliver for a sequencer with model `m`:
/// presses and zones name existing tracks, pointer coordinates are in
/// range, the frame delta is a time value, and the identity counter has
/// room for every press.
pub open spec fn input_wf(ti: TickModel, m: SeqModel) -> bool {
    &&& forall|i: int| 0 <= i < ti.presses.len() ==> press_wf(#[trigger] ti.presses[i], m.config)
    &&& forall|i: int| 0 <= i < ti.drag_events.len() ==> event_wf(#[trigger] ti.drag_events[i])
    &&& forall|i: int| 0 <= i < ti.drop_zones.len() ==> zone_wf(#[trigger] ti.drop_zones[i], m.config)
    &&& ti.delta <= MAX_TIME
    &&& m.next_id + ti.presses.len() <= u64::MAX
}

/// Note placement applied for each press, in report order.
pub open spec fn spec_place_all(m: SeqModel, presses: Seq<TrackPress>) -> SeqModel
    decreases presses.len(),
{
    if presses.len() == 0 {
        m
    } else {
        spec_place_all(
            spec_place(m, presses[0].track, presses[0].cursor_x),
            presses.drop_first(),
        )
    }
}

/// Drag signals applied in report order. Handling stops after the first
/// live one: a single pointer updates at most one live gesture per tick.
pub open spec fn spec_drag_all(
    m: SeqModel,
    ses: Option<DragSession>,
    evs: Seq<DragEvent>,
) -> (SeqModel, Option<DragSession>)
    decreases evs.len(),
{
    if evs.len() == 0 {
        (m, ses)
    } else {
        let r = spec_drag_step(m, ses, evs[0]);
        if is_live_phase(evs[0].phase) {
            r
        } else {
            spec_drag_all(r.0, r.1, evs.drop_first())
        }
    }
}

/// One whole tick over the model, in the strict stage order: note
/// placement, drag resolution, live track reassignment, snap-back, clock
/// advance, trigger sampling. The clock advances before the emitter
/// samples; the emitter runs only on ticks that began in the playing
/// state, against the post-advance position.
pub open spec fn spec_tick(
    m: SeqModel,
    ses: Option<DragSession>,
    prev: Set<u64>,
    ti: TickModel,
) -> (SeqModel, Option<DragSession>, Set<u64>, Seq<PlayEvent>) {
    let m1 = if ti.any_notes_interacted {
        m
    } else {
        spec_place_all(m, ti.presses)
    };
    let r = spec_drag_all(m1, ses, ti.drag_events);
    let m2 = r.0;
    let ses2 = r.1;
    let m3 = match ses2 {
        Some(s) => spec_reassign(m2, s, ti.drop_zones),
        None => m2,
    };
    let m4 = match ses2 {
        Some(s) => spec_snap_back(m3, s, ti.drop_zones),
        None => m3,
    };
    let was_playing = m4.state is Playing;
    let m5 = spec_advance(m4, ti.delta);
    if was_playing {
        (m5, ses2, spec_active_ids(m5.notes, m5.play_pos), spec_emitted(m5.notes, m5.play_pos, prev))
    } else {
        (m5, ses2, prev, Seq::<PlayEvent>::empty())
    }
}

/// Runs one tick: applies the tick's input to the sequencer, the drag
/// session and the emitter, and hands back the trigger events fired, in
/// note-list order, for the downstream consumer.
#[verifier::loop_isolation(false)]
pub fn sequencer_tick(
    seq: &mut Sequencer,
    session: &mut Option<DragSession>,
    emitter: &mut TriggerEmitter,
    input: &TickInput,
) -> (events: Vec<PlayEvent>)
    requires
        old(seq).wf(),
        session_wf(*old(session), old(seq)@),
        input_wf(input@, old(seq)@),
    ensures
        final(seq).wf(),
        session_wf(*final(session), final(seq)@),
        (final(seq)@, *final(session), final(emitter)@, events@) == spec_tick(
            old(seq)@, *old(session), old(emitter)@, input@,
        ),
        final(seq).tracks == old(seq).tracks,
{
    // Stage 1: note placement.
    if !input.any_notes_interacted {
        let ghost m_start = seq@;
        proof {
            assert(input.presses@.skip(0) =~= input.presses@);
        }
        let mut k: usize = 0;
        while k < input.presses.len()
            invariant
                seq.wf(),
                seq.tracks == old(seq).tracks,
                seq.config == old(seq).config,
                *session == *old(session),
                k <= input.presses@.len(),
                seq@.next_id + (input.presses@.len() - k) <= u64::MAX,
                spec_place_all(m_start, input.presses@) == spec_place_all(
                    seq@, input.presses@.skip(k as int),
                ),
            decreases input.presses@.len() - k,
        {
            let ghost m_before = seq@;
            let p = input.presses[k];
            proof {
                assert(press_wf(input@.presses[k as int], old(seq).config));
            }
            let _ = track_interaction(seq, &p, false);
            k = k + 1;
            proof {
                assert(input.presses@.skip(k - 1).drop_first() =~= input.presses@.skip(k as int));
                assert(input.presses@.skip(k - 1)[0] == input.presses@[k - 1]);
            }
        }
        proof {
            assert(input.presses@.skip(input.presses@.len() as int)
                =~= Seq::<TrackPress>::empty());
        }
    }
    let ghost m1 = seq@;
    assert(m1 == (if input@.any_notes_interacted {
        old(seq)@
    } else {
        spec_place_all(old(seq)@, input@.presses)
    }));

    // Stage 2: drag resolution.
    let ghost ses1 = *session;
    proof {
        assert(input.drag_events@.skip(0) =~= input.drag_events@);
    }
    let mut k: usize = 0;
    let mut stopped: bool = false;
    while k < input.drag_events.len() && !stopped
        invariant
            seq.wf(),
            seq.tracks == old(seq).tracks,
            seq.config == old(seq).config,
            session_wf(*session, seq@),
            k <= input.drag_events@.len(),
            !stopped ==> spec_drag_all(m1, ses1, input.drag_events@) == spec_drag_all(
                seq@, *session, input.drag_events@.skip(k as int),
            ),
            stopped ==> spec_drag_all(m1, ses1, input.drag_events@) == (seq@, *session),
        decreases input.drag_events@.len() - k,
    {
        let ev = input.drag_events[k];
        proof {
            assert(event_wf(input@.drag_events[k as int]));
        }
        note_drag(seq, session, &ev);
        if matches!(ev.phase, DragPhase::DragStart | DragPhase::Dragging) {
            stopped = true;
        }
        k = k + 1;
        proof {
            assert(input.drag_events@.skip(k - 1).drop_first()
                =~= input.drag_events@.skip(k as int));
            assert(input.drag_events@.skip(k - 1)[0] == input.drag_events@[k - 1]);
        }
    }
    proof {
        if !stopped {
            assert(input.drag_events@.skip(input.drag_events@.len() as int)
                =~= Seq::<DragEvent>::empty());
        }
        assert(spec_drag_all(m1, ses1, input@.drag_events) == (seq@, *session));
    }

    // Stages 3 and 4: live track reassignment, then snap-back.
    let ghost m2 = seq@;
    let ghost ses2 = *session;
    match *session {
        Some(s) => {
            note_move_between_tracks(seq, &s, &input.drop_zones);
            note_move_inactive(seq, &s, &input.drop_zones);
        },
        None => {},
    }
    proof {
        assert(seq@ == (match ses2 {
            Some(s) => spec_snap_back(spec_reassign(m2, s, input@.drop_zones), s, input@.drop_zones),
            None => m2,
        }));
    }

    // Stage 5: clock advance, before sampling, so a note at the boundary
    // is judged against the post-advance position.
    let ghost m4 = seq@;
    let was_playing = seq.state == SequencerState::Playing;
    seq.advance_play_pos(input.delta);
    assert(seq@ == spec_advance(m4, input@.delta));

    // Stage 6: trigger sampling, only on ticks that began playing.
    if was_playing {
        let events = emitter.play_note(seq);
        events
    } else {
        let events: Vec<PlayEvent> = Vec::new();
        proof {
            assert(events@ =~= Seq::<PlayEvent>::empty());
        }
        events
    }
}

} // verus!
