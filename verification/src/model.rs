//! The timeline data model: tracks, notes and the sequencer aggregate that
//! owns them, together with the playback clock.

use vstd::prelude::*;

use crate::geometry::{seconds_to_pixels, spec_seconds_to_pixels, MAX_TIME, MAX_TRACK_WIDTH};

verus! {

/// What a note does when the play cursor reaches it. A single variant so
/// far; the tag exists so that more can be added.
#[derive(Clone, Copy, PartialEq, Eq, Structural, Debug)]
pub enum NoteKind {
    Jump,
}

/// Whether the sequencer's playback clock is running.
#[derive(Clone, Copy, PartialEq, Eq, Structural, Debug)]
pub enum SequencerState {
    /// The clock advances and notes are sampled every tick.
    Playing,
    /// A seek animation owns the cursor; the clock does not advance.
    Seeking,
    /// The clock does not advance.
    Stopped,
}

/// A placed, playable event: when it starts and how long it lasts.
#[derive(Clone, Copy, PartialEq, Eq, Structural, Debug)]
pub struct Note {
    pub kind: NoteKind,
    /// Start time, in time units from the timeline's origin.
    pub pos: u64,
    /// Duration, in time units. Always positive.
    pub width: u64,
}

/// A note together with its bookkeeping: identity, owning track and the
/// pixel offset at which it is currently shown.
#[derive(Clone, Copy, PartialEq, Eq, Structural, Debug)]
pub struct NoteEntry {
    /// Identity, unique within one sequencer.
    pub id: u64,
    /// Index of the track that owns the note — exactly one at any time.
    pub track: u64,
    /// Pixel offset from the owning track's left edge. It mirrors
    /// `note.pos` while the note rests and follows the pointer while the
    /// note is dragged; a drop inside the track resyncs `note.pos` from it.
    pub left: i64,
    pub note: Note,
}

/// An ordered lane that owns notes, identified by its index in the
/// sequencer's track list and shown under a display name.
pub struct Track {
    pub name: String,
}

/// The fixed parameters of one sequencer screen.
#[derive(Clone, Copy, PartialEq, Eq, Structural, Debug)]
pub struct SeqConfig {
    /// Length of the timeline, in time units.
    pub duration: u64,
    /// Width of each track on screen, in pixels.
    pub track_width: u64,
    /// Width given to a newly placed note, in time units.
    pub default_note_width: u64,
    /// How many tracks the sequencer owns.
    pub n_tracks: u64,
    /// Whether the clock keeps playing after wrapping at `duration`
    /// (`true`), or stops (`false`).
    pub loop_on_wrap: bool,
}

impl SeqConfig {
    /// Bounds that keep every coordinate computation inside `u64`.
    pub open spec fn wf(self) -> bool {
        &&& 0 < self.duration <= MAX_TIME
        &&& 0 < self.track_width <= MAX_TRACK_WIDTH
        &&& 0 < self.default_note_width <= MAX_TIME
    }
}

/// The mathematical value of a sequencer: what the contracts of this crate
/// speak about. Track display names are presentation data and stay outside
/// the model.
#[verifier::ext_equal]
pub struct SeqModel {
    pub notes: Seq<NoteEntry>,
    pub play_pos: u64,
    pub state: SequencerState,
    pub next_id: u64,
    pub config: SeqConfig,
}

/// No two entries carry the same identity.
pub open spec fn unique_ids(s: Seq<NoteEntry>) -> bool {
    forall|i: int, j: int|
        #![trigger s[i].id, s[j].id]
        0 <= i < j < s.len() ==> s[i].id != s[j].id
}

/// A note that the invariants accept: positive width, start time on the
/// timeline, owned by an existing track.
pub open spec fn entry_wf(e: NoteEntry, c: SeqConfig) -> bool {
    &&& 0 < e.note.width <= MAX_TIME
    &&& e.note.pos <= c.duration
    &&& e.track < c.n_tracks
}

/// Every entry is well formed, identities are unique, and none has reached
/// the identity counter yet.
pub open spec fn notes_wf(s: Seq<NoteEntry>, c: SeqConfig, next_id: u64) -> bool {
    &&& unique_ids(s)
    &&& forall|i: int|
        0 <= i < s.len() ==> entry_wf(#[trigger] s[i], c) && s[i].id < next_id
}

/// The sequencer invariant: a well-formed configuration, the play cursor
/// inside the timeline, and a well-formed note list.
pub open spec fn model_wf(m: SeqModel) -> bool {
    &&& m.config.wf()
    &&& m.play_pos < m.config.duration
    &&& notes_wf(m.notes, m.config, m.next_id)
}

/// Some entry carries the identity `id`.
pub open spec fn has_note(s: Seq<NoteEntry>, id: u64) -> bool {
    exists|i: int| 0 <= i < s.len() && (#[trigger] s[i].id) == id
}

/// The position of the entry carrying `id` — meaningful under
/// `unique_ids`, where it is the only such position.
pub open spec fn note_index(s: Seq<NoteEntry>, id: u64) -> int {
    choose|i: int| 0 <= i < s.len() && (#[trigger] s[i].id) == id
}

/// With unique identities, an index holding `id` is the one `note_index`
/// names.
pub proof fn lemma_note_index(s: Seq<NoteEntry>, id: u64, i: int)
    requires
        unique_ids(s),
        0 <= i < s.len(),
        s[i].id == id,
    ensures
        has_note(s, id),
        note_index(s, id) == i,
{
    assert(has_note(s, id));
    let j = note_index(s, id);
    assert(0 <= j < s.len() && s[j].id == id);
    if i < j {
        assert(s[i].id != s[j].id);
    } else if j < i {
        assert(s[j].id != s[i].id);
    }
}

/// Every note of a well-formed sequencer has a positive width and a start
/// time on the timeline; start times are non-negative by type. Constructors
/// establish `model_wf` and every mutating method of this crate preserves
/// it, so this holds after every mutation.
pub proof fn lemma_note_invariants(m: SeqModel, i: int)
    requires
        model_wf(m),
        0 <= i < m.notes.len(),
    ensures
        m.notes[i].note.width > 0,
        0 <= m.notes[i].note.pos <= m.config.duration,
{
}

/// Replacing an entry, identity kept, preserves identity uniqueness.
pub proof fn lemma_unique_update(s: Seq<NoteEntry>, i: int, e: NoteEntry)
    requires
        unique_ids(s),
        0 <= i < s.len(),
        e.id == s[i].id,
    ensures
        unique_ids(s.update(i, e)),
{
    let t = s.update(i, e);
    assert forall|a: int, b: int|
        #![trigger t[a].id, t[b].id]
        0 <= a < b < t.len() implies t[a].id != t[b].id by {
        assert(s[a].id != s[b].id);
    }
}

/// Replacing an entry, identity kept, preserves the note-list invariant.
pub proof fn lemma_notes_wf_update(
    s: Seq<NoteEntry>,
    c: SeqConfig,
    next_id: u64,
    i: int,
    e: NoteEntry,
)
    requires
        notes_wf(s, c, next_id),
        0 <= i < s.len(),
        e.id == s[i].id,
        entry_wf(e, c),
    ensures
        notes_wf(s.update(i, e), c, next_id),
{
    let t = s.update(i, e);
    assert forall|a: int, b: int|
        #![trigger t[a].id, t[b].id]
        0 <= a < b < t.len() implies t[a].id != t[b].id by {
        assert(s[a].id != s[b].id);
    }
}

/// Removing an entry preserves the note-list invariant.
pub proof fn lemma_notes_wf_remove(s: Seq<NoteEntry>, c: SeqConfig, next_id: u64, i: int)
    requires
        notes_wf(s, c, next_id),
        0 <= i < s.len(),
    ensures
        notes_wf(s.remove(i), c, next_id),
{
    let t = s.remove(i);
    assert forall|a: int, b: int|
        #![trigger t[a].id, t[b].id]
        0 <= a < b < t.len() implies t[a].id != t[b].id by {
        let a0 = if a < i { a } else { a + 1 };
        let b0 = if b < i { b } else { b + 1 };
        assert(t[a] == s[a0]);
        assert(t[b] == s[b0]);
        assert(s[a0].id != s[b0].id);
    }
    assert forall|a: int| 0 <= a < t.len() implies entry_wf(#[trigger] t[a], c)
        && t[a].id < next_id by {
        let a0 = if a < i { a } else { a + 1 };
        assert(t[a] == s[a0]);
    }
}

/// Appending an entry carrying the fresh identity `next_id` preserves the
/// note-list invariant with the counter advanced.
pub proof fn lemma_notes_wf_push(s: Seq<NoteEntry>, c: SeqConfig, next_id: u64, e: NoteEntry)
    requires
        notes_wf(s, c, next_id),
        e.id == next_id,
        next_id < u64::MAX,
        entry_wf(e, c),
    ensures
        notes_wf(s.push(e), c, (next_id + 1) as u64),
{
    let t = s.push(e);
    assert forall|a: int, b: int|
        #![trigger t[a].id, t[b].id]
        0 <= a < b < t.len() implies t[a].id != t[b].id by {
        if b < s.len() {
            assert(s[a].id != s[b].id);
        } else {
            assert(t[b] == e);
            assert(s[a].id < next_id);
        }
    }
}

/// The aggregate state for the active timeline: the fixed tracks, the
/// ordered list of notes, the play cursor and the clock state. Created when
/// the sequencer screen is entered and dropped when it is left.
pub struct Sequencer {
    pub config: SeqConfig,
    pub tracks: Vec<Track>,
    pub notes: Vec<NoteEntry>,
    /// Play position, in time units. Always inside the timeline.
    pub play_pos: u64,
    pub state: SequencerState,
    /// Identity for the next note to be created.
    pub next_id: u64,
}

impl View for Sequencer {
    type V = SeqModel;

    open spec fn view(&self) -> SeqModel {
        SeqModel {
            notes: self.notes@,
            play_pos: self.play_pos,
            state: self.state,
            next_id: self.next_id,
            config: self.config,
        }
    }
}

/// The identities of the notes whose `track` field names `track`, in
/// note-list order.
pub open spec fn spec_track_members(notes: Seq<NoteEntry>, track: u64) -> Seq<u64>
    decreases notes.len(),
{
    if notes.len() == 0 {
        Seq::<u64>::empty()
    } else {
        let rest = spec_track_members(notes.drop_last(), track);
        if notes.last().track == track {
            rest.push(notes.last().id)
        } else {
            rest
        }
    }
}

/// The entry that placing a note appends: a fresh identity, the pressed
/// track, the given start time, the configured default width, shown at the
/// pixel offset matching the start time.
pub open spec fn spec_new_entry(m: SeqModel, track: u64, pos: u64) -> NoteEntry {
    NoteEntry {
        id: m.next_id,
        track,
        left: spec_seconds_to_pixels(pos, m.config.duration, m.config.track_width) as i64,
        note: Note { kind: NoteKind::Jump, pos, width: m.config.default_note_width },
    }
}

/// One clock tick over the model: while playing, the play position advances
/// by the frame delta; on reaching the end of the timeline it wraps to the
/// origin, and the clock stops unless the configuration asks for a loop.
pub open spec fn spec_advance(m: SeqModel, delta: u64) -> SeqModel {
    if m.state is Playing {
        if m.play_pos + delta >= m.config.duration {
            SeqModel {
                play_pos: 0,
                state: if m.config.loop_on_wrap {
                    SequencerState::Playing
                } else {
                    SequencerState::Stopped
                },
                ..m
            }
        } else {
            SeqModel { play_pos: (m.play_pos + delta) as u64, ..m }
        }
    } else {
        m
    }
}

impl Sequencer {
    /// The sequencer invariant; every constructor establishes it and every
    /// method preserves it. Among other things it keeps, for every note,
    /// `width > 0` and `pos` on the timeline (`pos >= 0` holds by type).
    pub open spec fn wf(self) -> bool {
        &&& model_wf(self@)
        &&& self.tracks@.len() == self.config.n_tracks
    }

    /// Creates the sequencer for one screen session: the given fixed
    /// tracks, no notes, the cursor at the origin, the clock stopped.
    pub fn new(config: SeqConfig, tracks: Vec<Track>) -> (s: Sequencer)
        requires
            config.wf(),
            tracks@.len() == config.n_tracks,
        ensures
            s.wf(),
            s@ == (SeqModel {
                notes: Seq::<NoteEntry>::empty(),
                play_pos: 0,
                state: SequencerState::Stopped,
                next_id: 0,
                config,
            }),
            s.tracks == tracks,
    {
        let s = Sequencer {
            config,
            tracks,
            notes: Vec::new(),
            play_pos: 0,
            state: SequencerState::Stopped,
            next_id: 0,
        };
        proof {
            assert(s@.notes =~= Seq::<NoteEntry>::empty());
        }
        s
    }

    /// The position of the note carrying identity `id` in the note list,
    /// or `None` when no note carries it.
    pub fn find_note(&self, id: u64) -> (r: Option<usize>)
        requires
            self.wf(),
        ensures
            (match r {
                Some(i) => {
                    &&& i < self@.notes.len()
                    &&& self@.notes[i as int].id == id
                    &&& has_note(self@.notes, id)
                    &&& note_index(self@.notes, id) == i
                },
                None => !has_note(self@.notes, id),
            }),
    {
        let mut i: usize = 0;
        while i < self.notes.len()
            invariant
                i <= self.notes@.len(),
                self.wf(),
                forall|j: int| 0 <= j < i ==> (#[trigger] self.notes@[j].id) != id,
            decreases self.notes@.len() - i,
        {
            if self.notes[i].id == id {
                proof {
                    lemma_note_index(self@.notes, id, i as int);
                }
                return Some(i);
            }
            i = i + 1;
        }
        proof {
            assert(!has_note(self@.notes, id));
        }
        None
    }

    /// The identities of the notes a track owns, in note-list order. The
    /// `track` field on each note is the source of truth for membership;
    /// this is the derived per-track reading of it.
    pub fn track_members(&self, track: u64) -> (r: Vec<u64>)
        ensures
            r@ == spec_track_members(self@.notes, track),
    {
        let mut r: Vec<u64> = Vec::new();
        let mut i: usize = 0;
        while i < self.notes.len()
            invariant
                i <= self.notes@.len(),
                r@ == spec_track_members(self.notes@.take(i as int), track),
            decreases self.notes@.len() - i,
        {
            proof {
                assert(self.notes@.take(i + 1).drop_last() =~= self.notes@.take(i as int));
                assert(self.notes@.take(i + 1).last() == self.notes@[i as int]);
            }
            if self.notes[i].track == track {
                r.push(self.notes[i].id);
            }
            i = i + 1;
        }
        proof {
            assert(self.notes@.take(self.notes@.len() as int) =~= self.notes@);
        }
        r
    }

    /// Appends a freshly created note to the timeline and hands back its
    /// identity. Used by note placement; the start time has already been
    /// derived from the pointer position.
    pub fn spawn_note(&mut self, track: u64, pos: u64) -> (id: u64)
        requires
            old(self).wf(),
            track < old(self).config.n_tracks,
            pos <= old(self).config.duration,
            old(self).next_id < u64::MAX,
        ensures
            final(self).wf(),
            id == old(self).next_id,
            final(self)@ == (SeqModel {
                notes: old(self)@.notes.push(spec_new_entry(old(self)@, track, pos)),
                next_id: (old(self).next_id + 1) as u64,
                ..old(self)@
            }),
            final(self).tracks == old(self).tracks,
    {
        let id = self.next_id;
        let left = seconds_to_pixels(pos, self.config.duration, self.config.track_width);
        let entry = NoteEntry {
            id,
            track,
            left: left as i64,
            note: Note { kind: NoteKind::Jump, pos, width: self.config.default_note_width },
        };
        self.notes.push(entry);
        self.next_id = self.next_id + 1;
        proof {
            assert(entry == spec_new_entry(old(self)@, track, pos));
            lemma_notes_wf_push(old(self)@.notes, self.config, id, entry);
        }
        id
    }

    /// One clock tick. Runs before the trigger emitter samples notes, so a
    /// note at the boundary is evaluated against the post-advance position.
    pub fn advance_play_pos(&mut self, delta: u64)
        requires
            old(self).wf(),
            delta <= MAX_TIME,
        ensures
            final(self).wf(),
            final(self)@ == spec_advance(old(self)@, delta),
            final(self).tracks == old(self).tracks,
    {
        if self.state == SequencerState::Playing {
            let np = self.play_pos + delta;
            if np >= self.config.duration {
                self.play_pos = 0;
                self.state = if self.config.loop_on_wrap {
                    SequencerState::Playing
                } else {
                    SequencerState::Stopped
                };
            } else {
                self.play_pos = np;
            }
        }
    }
}

} // verus!
