//! The drag-and-drop controller: note placement on track presses, the
//! single drag session, live track reassignment, snap-back and drop
//! resolution.

use vstd::prelude::*;

use crate::geometry::{
    pixels_to_seconds, spec_pixels_to_seconds, MAX_COORD,
};
use crate::model::{
    has_note, lemma_note_index, lemma_notes_wf_remove, lemma_notes_wf_update, lemma_unique_update,
    note_index, spec_new_entry, unique_ids, Note, NoteEntry, SeqConfig, SeqModel, Sequencer,
};

verus! {

/// How the input collaborator reports a drag gesture on a note whose
/// gesture state changed this tick.
#[derive(Clone, Copy, PartialEq, Eq, Structural, Debug)]
pub enum DragPhase {
    Inactive,
    DragStart,
    Dragging,
    DragEnd,
    DragCanceled,
}

/// How a track's drop-zone reports the dragged item this tick.
#[derive(Clone, Copy, PartialEq, Eq, Structural, Debug)]
pub enum DropPhase {
    Inactive,
    Entered,
    Hover,
    Left,
    Dropped,
}

/// The single in-progress drag gesture: which note is dragged, and the
/// track and pixel offset it started from. At most one exists at any
/// instant; the controller threads it around as an explicit
/// `Option<DragSession>`.
#[derive(Clone, Copy, PartialEq, Eq, Structural, Debug)]
pub struct DragSession {
    pub note: u64,
    pub origin_track: u64,
    pub origin_left: i64,
}

/// One drag signal from the input collaborator: the note it concerns, the
/// gesture phase, and the pointer's x coordinate at gesture start and now,
/// where the platform has resolved them.
#[derive(Clone, Copy, Debug)]
pub struct DragEvent {
    pub note: u64,
    pub phase: DragPhase,
    pub origin: Option<i64>,
    pub position: Option<i64>,
}

/// One track's drop-zone state this tick: its phase and the identity of
/// the item hovering over it, if any.
#[derive(Clone, Copy, Debug)]
pub struct DropZoneInput {
    pub track: u64,
    pub phase: DropPhase,
    pub incoming: Option<u64>,
}

/// A pointer press on a track: which track, and the pointer's x offset
/// from the track's left edge, in pixels.
#[derive(Clone, Copy, Debug)]
pub struct TrackPress {
    pub track: u64,
    pub cursor_x: u64,
}

/// Phases on which a drag gesture is over: the session is torn down and
/// the drop resolved.
pub open spec fn is_end_phase(p: DragPhase) -> bool {
    p is DragEnd || p is DragCanceled || p is Inactive
}

/// Phases on which a drag gesture is live: the dragged note follows the
/// pointer.
pub open spec fn is_live_phase(p: DragPhase) -> bool {
    p is DragStart || p is Dragging
}

/// Drop-zone phases on which the zone's track receives the dragged note.
pub open spec fn is_active_drop(p: DropPhase) -> bool {
    p is Entered || p is Hover
}

/// Pointer coordinates the platform layer may deliver.
pub open spec fn event_wf(ev: DragEvent) -> bool {
    &&& (ev.origin matches Some(o) ==> -MAX_COORD <= o <= MAX_COORD)
    &&& (ev.position matches Some(p) ==> -MAX_COORD <= p <= MAX_COORD)
}

/// A session may only name an existing track as its origin.
pub open spec fn session_wf(ses: Option<DragSession>, m: SeqModel) -> bool {
    ses matches Some(s) ==> s.origin_track < m.config.n_tracks
}

/// A drop-zone report may only name an existing track.
pub open spec fn zone_wf(z: DropZoneInput, c: SeqConfig) -> bool {
    z.track < c.n_tracks
}

/// A press names an existing track, and the platform normalises the
/// pointer offset into the track extent.
pub open spec fn press_wf(p: TrackPress, c: SeqConfig) -> bool {
    p.track < c.n_tracks && p.cursor_x <= c.track_width
}

/// The pixel offset of a dragged note: the pointer's travel since the
/// gesture began, applied to the offset the note started from.
pub open spec fn spec_drag_left(origin: int, position: int, orig_left: int) -> int {
    position - origin + orig_left
}

/// The entry as a drop inside the track leaves it: the start time resynced
/// from the final pixel offset.
pub open spec fn spec_resynced(e: NoteEntry, c: SeqConfig) -> NoteEntry {
    NoteEntry {
        note: Note {
            pos: spec_pixels_to_seconds(e.left as u64, c.duration, c.track_width) as u64,
            ..e.note
        },
        ..e
    }
}

/// Resolves the end of a drag of note `id`: dropped outside the track's
/// horizontal extent the note is destroyed; dropped inside, its start time
/// is recomputed from where it now sits. A stale identity is skipped.
pub open spec fn spec_drop_resolve(m: SeqModel, id: u64) -> SeqModel {
    if has_note(m.notes, id) {
        let i = note_index(m.notes, id);
        let e = m.notes[i];
        if e.left < 0 || e.left > m.config.track_width {
            SeqModel { notes: m.notes.remove(i), ..m }
        } else {
            SeqModel { notes: m.notes.update(i, spec_resynced(e, m.config)), ..m }
        }
    } else {
        m
    }
}

/// A drag released at a pixel offset outside the track's horizontal extent
/// removes the note from the sequencer's note list: afterwards the list is
/// one shorter and no entry carries the note's identity.
pub proof fn lemma_drop_outside_removes(m: SeqModel, id: u64)
    requires
        unique_ids(m.notes),
        has_note(m.notes, id),
        ({
            let e = m.notes[note_index(m.notes, id)];
            e.left < 0 || e.left > m.config.track_width
        }),
    ensures
        spec_drop_resolve(m, id).notes.len() == m.notes.len() - 1,
        !has_note(spec_drop_resolve(m, id).notes, id),
{
    let i = note_index(m.notes, id);
    assert(0 <= i < m.notes.len() && m.notes[i].id == id);
    let t = m.notes.remove(i);
    assert forall|j: int| 0 <= j < t.len() implies (#[trigger] t[j].id) != id by {
        let j0 = if j < i { j } else { j + 1 };
        assert(t[j] == m.notes[j0]);
        if j0 < i {
            assert(m.notes[j0].id != m.notes[i].id);
        } else {
            assert(m.notes[i].id != m.notes[j0].id);
        }
    }
    assert(!has_note(t, id));
}

/// One drag signal applied to the timeline and the session.
///
/// An end phase for the session's own note tears the session down and
/// resolves the drop; for any other note it does nothing. A live phase
/// opens a session for the note if none covers it — a live phase for a
/// second note while a session exists replaces the session, so the last
/// gesture of a tick wins — and moves the note's pixel offset to follow
/// the pointer, where both pointer coordinates have been resolved and the
/// resulting offset fits `i64`.
pub open spec fn spec_drag_step(
    m: SeqModel,
    ses: Option<DragSession>,
    ev: DragEvent,
) -> (SeqModel, Option<DragSession>) {
    if is_end_phase(ev.phase) {
        match ses {
            Some(s) => if s.note == ev.note {
                (spec_drop_resolve(m, ev.note), None::<DragSession>)
            } else {
                (m, ses)
            },
            None => (m, ses),
        }
    } else {
        if has_note(m.notes, ev.note) {
            let i = note_index(m.notes, ev.note);
            let e = m.notes[i];
            let s = match ses {
                Some(s0) => if s0.note == ev.note {
                    s0
                } else {
                    DragSession { note: ev.note, origin_track: e.track, origin_left: e.left }
                },
                None => DragSession { note: ev.note, origin_track: e.track, origin_left: e.left },
            };
            let m2 = match (ev.origin, ev.position) {
                (Some(o), Some(p)) => {
                    let nl = spec_drag_left(o as int, p as int, s.origin_left as int);
                    if i64::MIN <= nl <= i64::MAX {
                        SeqModel { notes: m.notes.update(i, NoteEntry { left: nl as i64, ..e }), ..m }
                    } else {
                        m
                    }
                },
                _ => m,
            };
            (m2, Some(s))
        } else {
            (m, ses)
        }
    }
}

/// Adds a pointer travel to a stored offset, reporting `None` where the
/// exact sum leaves `i64`; the caller then skips the tick's update.
fn checked_offset(travel: i64, base: i64) -> (r: Option<i64>)
    ensures
        (match r {
            Some(v) => v == travel + base,
            None => !(i64::MIN <= travel + base <= i64::MAX),
        }),
{
    if travel >= 0 {
        if base <= i64::MAX - travel {
            Some(base + travel)
        } else {
            None
        }
    } else {
        if base >= i64::MIN - travel {
            Some(base + travel)
        } else {
            None
        }
    }
}

/// Applies one drag signal: updates the dragged note's pixel offset,
/// opens or replaces the session, or — on an end phase for the session's
/// note — tears the session down and resolves the drop.
pub fn note_drag(seq: &mut Sequencer, session: &mut Option<DragSession>, ev: &DragEvent)
    requires
        old(seq).wf(),
        session_wf(*old(session), old(seq)@),
        event_wf(*ev),
    ensures
        final(seq).wf(),
        session_wf(*final(session), final(seq)@),
        (final(seq)@, *final(session)) == spec_drag_step(old(seq)@, *old(session), *ev),
        final(seq).tracks == old(seq).tracks,
{
    match ev.phase {
        DragPhase::DragEnd | DragPhase::DragCanceled | DragPhase::Inactive => {
            let tear: bool = match *session {
                Some(s) => s.note == ev.note,
                None => false,
            };
            if tear {
                *session = None;
                match seq.find_note(ev.note) {
                    Some(i) => {
                        let e = seq.notes[i];
                        if e.left < 0 || e.left > seq.config.track_width as i64 {
                            let _ = seq.notes.remove(i);
                            proof {
                                lemma_notes_wf_remove(
                                    old(seq)@.notes, seq.config, seq.next_id, i as int,
                                );
                            }
                        } else {
                            let pos = pixels_to_seconds(
                                e.left as u64, seq.config.duration, seq.config.track_width,
                            );
                            let e2 = NoteEntry { note: Note { pos, ..e.note }, ..e };
                            seq.notes[i] = e2;
                            proof {
                                assert(e2 == spec_resynced(e, seq.config));
                                lemma_notes_wf_update(
                                    old(seq)@.notes, seq.config, seq.next_id, i as int, e2,
                                );
                            }
                        }
                    },
                    None => {},
                }
            }
        },
        DragPhase::DragStart | DragPhase::Dragging => {
            match seq.find_note(ev.note) {
                Some(i) => {
                    let e = seq.notes[i];
                    let s: DragSession = match *session {
                        Some(s0) => if s0.note == ev.note {
                            s0
                        } else {
                            DragSession {
                                note: ev.note,
                                origin_track: e.track,
                                origin_left: e.left,
                            }
                        },
                        None => DragSession {
                            note: ev.note,
                            origin_track: e.track,
                            origin_left: e.left,
                        },
                    };
                    match (ev.origin, ev.position) {
                        (Some(o), Some(p)) => {
                            match checked_offset(p - o, s.origin_left) {
                                Some(nl) => {
                                    let e2 = NoteEntry { left: nl, ..e };
                                    seq.notes[i] = e2;
                                    proof {
                                        lemma_notes_wf_update(
                                            old(seq)@.notes, seq.config, seq.next_id,
                                            i as int, e2,
                                        );
                                    }
                                },
                                None => {},
                            }
                        },
                        _ => {},
                    }
                    *session = Some(s);
                },
                None => {},
            }
        },
    }
}

/// Whether a drop-zone report hands the session's note to its track.
pub open spec fn zone_matches(z: DropZoneInput, s: DragSession) -> bool {
    is_active_drop(z.phase) && z.incoming == Some(s.note)
}

/// Live track reassignment: the first drop-zone, in report order, whose
/// phase is entered or hover and whose incoming item is the session's note
/// receives that note; later reports are not consulted. The note moves
/// logically the moment the zone reports it, before the drag ends.
pub open spec fn spec_reassign(m: SeqModel, s: DragSession, zones: Seq<DropZoneInput>) -> SeqModel
    decreases zones.len(),
{
    if zones.len() == 0 {
        m
    } else {
        let z = zones[0];
        if zone_matches(z, s) {
            if has_note(m.notes, s.note) {
                let i = note_index(m.notes, s.note);
                if m.notes[i].track != z.track {
                    SeqModel {
                        notes: m.notes.update(i, NoteEntry { track: z.track, ..m.notes[i] }),
                        ..m
                    }
                } else {
                    m
                }
            } else {
                m
            }
        } else {
            spec_reassign(m, s, zones.drop_first())
        }
    }
}

/// Reports before the first matching one leave the reassignment unchanged.
proof fn lemma_reassign_skip(m: SeqModel, s: DragSession, zones: Seq<DropZoneInput>, k: int)
    requires
        0 <= k <= zones.len(),
        forall|j: int| 0 <= j < k ==> !zone_matches(#[trigger] zones[j], s),
    ensures
        spec_reassign(m, s, zones.skip(k)) == spec_reassign(m, s, zones),
    decreases k,
{
    if k > 0 {
        assert(zones.skip(k - 1).drop_first() =~= zones.skip(k));
        assert(zones.skip(k - 1)[0] == zones[k - 1]);
        lemma_reassign_skip(m, s, zones, k - 1);
    } else {
        assert(zones.skip(0) =~= zones);
    }
}

/// Moves the dragged note to the track whose drop-zone reports it, giving
/// live feedback of which track will receive it.
pub fn note_move_between_tracks(
    seq: &mut Sequencer,
    session: &DragSession,
    zones: &Vec<DropZoneInput>,
)
    requires
        old(seq).wf(),
        forall|j: int| 0 <= j < zones@.len() ==> zone_wf(#[trigger] zones@[j], old(seq).config),
    ensures
        final(seq).wf(),
        final(seq)@ == spec_reassign(old(seq)@, *session, zones@),
        final(seq).tracks == old(seq).tracks,
{
    let ghost m0 = seq@;
    let mut k: usize = 0;
    while k < zones.len()
        invariant
            seq.wf(),
            seq@ == m0,
            m0 == old(seq)@,
            seq.tracks == old(seq).tracks,
            k <= zones@.len(),
            forall|j: int| 0 <= j < zones@.len() ==> zone_wf(#[trigger] zones@[j], seq.config),
            forall|j: int| 0 <= j < k ==> !zone_matches(#[trigger] zones@[j], *session),
        decreases zones@.len() - k,
    {
        let z = zones[k];
        let active: bool = match z.phase {
            DropPhase::Entered | DropPhase::Hover => true,
            _ => false,
        };
        let incoming_matches: bool = match z.incoming {
            Some(n) => n == session.note,
            None => false,
        };
        if active && incoming_matches {
            proof {
                assert(zone_matches(zones@[k as int], *session));
                lemma_reassign_skip(m0, *session, zones@, k as int);
                assert(zones@.skip(k as int)[0] == zones@[k as int]);
            }
            match seq.find_note(session.note) {
                Some(i) => {
                    let e = seq.notes[i];
                    if e.track != z.track {
                        let e2 = NoteEntry { track: z.track, ..e };
                        seq.notes[i] = e2;
                        proof {
                            lemma_notes_wf_update(m0.notes, seq.config, seq.next_id, i as int, e2);
                        }
                    }
                },
                None => {},
            }
            return;
        }
        k = k + 1;
    }
    proof {
        lemma_reassign_skip(m0, *session, zones@, zones@.len() as int);
        assert(zones@.skip(zones@.len() as int) =~= Seq::<DropZoneInput>::empty());
    }
}

/// Dragging a note into another track's drop-zone and then releasing it
/// inside the track extent leaves it on that track: the first zone report
/// that hands the session's note to a track decides its new home, and drop
/// resolution only resyncs the start time.
pub proof fn lemma_move_then_drop_lands_on_track(
    m: SeqModel,
    s: DragSession,
    zones: Seq<DropZoneInput>,
    k: int,
)
    requires
        unique_ids(m.notes),
        has_note(m.notes, s.note),
        0 <= k < zones.len(),
        zone_matches(zones[k], s),
        forall|j: int| 0 <= j < k ==> !zone_matches(#[trigger] zones[j], s),
        ({
            let e = m.notes[note_index(m.notes, s.note)];
            0 <= e.left <= m.config.track_width
        }),
    ensures
        ({
            let r = spec_drop_resolve(spec_reassign(m, s, zones), s.note);
            &&& r.notes.len() == m.notes.len()
            &&& has_note(r.notes, s.note)
            &&& r.notes[note_index(r.notes, s.note)].track == zones[k].track
        }),
{
    let i = note_index(m.notes, s.note);
    assert(0 <= i < m.notes.len() && m.notes[i].id == s.note);
    lemma_reassign_skip(m, s, zones, k);
    assert(zones.skip(k)[0] == zones[k]);
    let m2 = spec_reassign(m, s, zones);
    if m.notes[i].track != zones[k].track {
        lemma_unique_update(m.notes, i, NoteEntry { track: zones[k].track, ..m.notes[i] });
    }
    lemma_note_index(m2.notes, s.note, i);
    assert(m2.notes[i].track == zones[k].track);
    assert(m2.notes[i].left == m.notes[i].left);
    let r = spec_drop_resolve(m2, s.note);
    lemma_unique_update(m2.notes, i, spec_resynced(m2.notes[i], m2.config));
    lemma_note_index(r.notes, s.note, i);
}

/// Every drop-zone reports its phase as inactive.
pub open spec fn all_zones_inactive(zones: Seq<DropZoneInput>) -> bool {
    forall|i: int| 0 <= i < zones.len() ==> (#[trigger] zones[i].phase) is Inactive
}

/// Snap-back: on a tick where no drop-zone is active while a session is
/// live, the dragged note returns to the track the drag started from.
pub open spec fn spec_snap_back(m: SeqModel, s: DragSession, zones: Seq<DropZoneInput>) -> SeqModel {
    if all_zones_inactive(zones) && has_note(m.notes, s.note) {
        let i = note_index(m.notes, s.note);
        if m.notes[i].track != s.origin_track {
            SeqModel {
                notes: m.notes.update(i, NoteEntry { track: s.origin_track, ..m.notes[i] }),
                ..m
            }
        } else {
            m
        }
    } else {
        m
    }
}

/// Moves the dragged note back to its origin track when the pointer is
/// over empty space: no drop-zone active while the session is live. The
/// origin track's own zone is not activated by a drag that started on it,
/// so this also restores a note dragged around within its own track.
pub fn note_move_inactive(
    seq: &mut Sequencer,
    session: &DragSession,
    zones: &Vec<DropZoneInput>,
)
    requires
        old(seq).wf(),
        session.origin_track < old(seq).config.n_tracks,
    ensures
        final(seq).wf(),
        final(seq)@ == spec_snap_back(old(seq)@, *session, zones@),
        final(seq).tracks == old(seq).tracks,
{
    let ghost m0 = seq@;
    let mut k: usize = 0;
    while k < zones.len()
        invariant
            seq.wf(),
            seq@ == m0,
            seq.tracks == old(seq).tracks,
            session.origin_track < seq.config.n_tracks,
            k <= zones@.len(),
            forall|j: int| 0 <= j < k ==> (#[trigger] zones@[j].phase) is Inactive,
        decreases zones@.len() - k,
    {
        let inactive: bool = match zones[k].phase {
            DropPhase::Inactive => true,
            _ => false,
        };
        if !inactive {
            assert(!all_zones_inactive(zones@));
            return;
        }
        k = k + 1;
    }
    assert(all_zones_inactive(zones@));
    match seq.find_note(session.note) {
        Some(i) => {
            let e = seq.notes[i];
            if e.track != session.origin_track {
                let e2 = NoteEntry { track: session.origin_track, ..e };
                seq.notes[i] = e2;
                proof {
                    lemma_notes_wf_update(m0.notes, seq.config, seq.next_id, i as int, e2);
                }
            }
        },
        None => {},
    }
}

/// Note placement: a press on a track, with no note under the pointer,
/// creates a note centred on the pointer — its start time is the pointer's
/// time value less half the default width, held at the timeline origin.
pub open spec fn spec_place(m: SeqModel, track: u64, cursor_x: u64) -> SeqModel {
    let t = spec_pixels_to_seconds(cursor_x, m.config.duration, m.config.track_width);
    let half = m.config.default_note_width as int / 2;
    let pos = if t >= half { t - half } else { 0 };
    SeqModel {
        notes: m.notes.push(spec_new_entry(m, track, pos as u64)),
        next_id: (m.next_id + 1) as u64,
        ..m
    }
}

/// Handles a pointer press on a track: spawns a note at the pointer unless
/// some note is currently receiving pointer interaction, and hands back the
/// new note's identity.
pub fn track_interaction(
    seq: &mut Sequencer,
    press: &TrackPress,
    any_notes_interacted: bool,
) -> (r: Option<u64>)
    requires
        old(seq).wf(),
        press_wf(*press, old(seq).config),
        old(seq).next_id < u64::MAX,
    ensures
        final(seq).wf(),
        final(seq).tracks == old(seq).tracks,
        any_notes_interacted ==> final(seq)@ == old(seq)@ && r is None,
        !any_notes_interacted ==> final(seq)@ == spec_place(old(seq)@, press.track, press.cursor_x)
            && r == Some(old(seq).next_id),
{
    if any_notes_interacted {
        return None;
    }
    let t = pixels_to_seconds(press.cursor_x, seq.config.duration, seq.config.track_width);
    let half = seq.config.default_note_width / 2;
    let pos: u64 = if t >= half { t - half } else { 0 };
    let id = seq.spawn_note(press.track, pos);
    Some(id)
}

} // verus!
