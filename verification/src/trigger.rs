//! The trigger emitter: samples notes against the play position every tick
//! and fires one event per note activation, not one per frame.

use vstd::prelude::*;

use crate::model::{Note, NoteEntry, Sequencer};
use crate::played::{played_contents, PlayedSet};

verus! {

/// A note the play cursor has just entered, handed to the downstream
/// consumer, which decides the in-world effect.
#[derive(Clone, Copy, PartialEq, Eq, Structural, Debug)]
pub struct PlayEvent(pub Note);

/// Whether a note is active at time `t`: the cursor lies strictly inside
/// the note's span, so a touch of either boundary does not count and equal
/// boundaries cannot fire twice.
pub open spec fn active_at(n: Note, t: u64) -> bool {
    n.pos < t && (t as int) < n.pos + n.width
}

/// The events one sampling pass emits: one for each note, in note-list
/// order, that is active at `t` and whose identity is not in the set
/// carried over from the previous tick.
pub open spec fn spec_emitted(notes: Seq<NoteEntry>, t: u64, prev: Set<u64>) -> Seq<PlayEvent>
    decreases notes.len(),
{
    if notes.len() == 0 {
        Seq::<PlayEvent>::empty()
    } else {
        let rest = spec_emitted(notes.drop_last(), t, prev);
        let e = notes.last();
        if active_at(e.note, t) && !prev.contains(e.id) {
            rest.push(PlayEvent(e.note))
        } else {
            rest
        }
    }
}

/// The identities of the notes active at `t`.
pub open spec fn spec_active_ids(notes: Seq<NoteEntry>, t: u64) -> Set<u64>
    decreases notes.len(),
{
    if notes.len() == 0 {
        Set::<u64>::empty()
    } else {
        let rest = spec_active_ids(notes.drop_last(), t);
        let e = notes.last();
        if active_at(e.note, t) {
            rest.insert(e.id)
        } else {
            rest
        }
    }
}

/// The set of active identities holds exactly the identities of active
/// notes.
pub proof fn lemma_active_ids_contains(notes: Seq<NoteEntry>, t: u64, id: u64)
    ensures
        spec_active_ids(notes, t).contains(id) <==> exists|i: int|
            0 <= i < notes.len() && (#[trigger] notes[i]).id == id && active_at(notes[i].note, t),
    decreases notes.len(),
{
    if notes.len() > 0 {
        lemma_active_ids_contains(notes.drop_last(), t, id);
        let e = notes.last();
        if spec_active_ids(notes, t).contains(id) {
            if active_at(e.note, t) && e.id == id {
                assert(notes[notes.len() - 1].id == id);
            } else {
                let i = choose|i: int|
                    0 <= i < notes.drop_last().len() && (#[trigger] notes.drop_last()[i]).id == id
                        && active_at(notes.drop_last()[i].note, t);
                assert(notes[i].id == id && active_at(notes[i].note, t));
            }
        }
        if exists|i: int|
            0 <= i < notes.len() && (#[trigger] notes[i]).id == id && active_at(notes[i].note, t) {
            let i = choose|i: int|
                0 <= i < notes.len() && (#[trigger] notes[i]).id == id
                    && active_at(notes[i].note, t);
            if i < notes.len() - 1 {
                assert(notes.drop_last()[i].id == id && active_at(notes.drop_last()[i].note, t));
            }
        }
    }
}

/// A pass in which every active note's identity is already carried over
/// emits nothing.
pub proof fn lemma_emitted_empty(notes: Seq<NoteEntry>, t: u64, prev: Set<u64>)
    requires
        forall|i: int|
            0 <= i < notes.len() && active_at((#[trigger] notes[i]).note, t) ==> prev.contains(
                notes[i].id,
            ),
    ensures
        spec_emitted(notes, t, prev) == Seq::<PlayEvent>::empty(),
    decreases notes.len(),
{
    if notes.len() > 0 {
        assert(notes[notes.len() - 1] == notes.last());
        assert forall|i: int|
            0 <= i < notes.drop_last().len()
                && active_at((#[trigger] notes.drop_last()[i]).note, t) implies prev.contains(
            notes.drop_last()[i].id,
        ) by {
            assert(notes.drop_last()[i] == notes[i]);
        }
        lemma_emitted_empty(notes.drop_last(), t, prev);
    }
}

/// Exactly once per activation, second half: after a pass at `t1`, a later
/// pass at `t2` in which every active note was already active at `t1`
/// fires nothing — a note does not re-fire while the cursor dwells inside
/// it. (It can fire again on a later pass of the cursor, once it has been
/// inactive for a tick.)
pub proof fn lemma_trigger_exactly_once(notes: Seq<NoteEntry>, t1: u64, t2: u64)
    requires
        forall|i: int|
            0 <= i < notes.len() && active_at((#[trigger] notes[i]).note, t2) ==> active_at(
                notes[i].note,
                t1,
            ),
    ensures
        spec_emitted(notes, t2, spec_active_ids(notes, t1)) == Seq::<PlayEvent>::empty(),
{
    let prev = spec_active_ids(notes, t1);
    assert forall|i: int|
        0 <= i < notes.len() && active_at((#[trigger] notes[i]).note, t2) implies prev.contains(
        notes[i].id,
    ) by {
        lemma_active_ids_contains(notes, t1, notes[i].id);
    }
    lemma_emitted_empty(notes, t2, prev);
}

/// Exactly once per activation, first half: a note that is active and not
/// carried over fires in this pass.
pub proof fn lemma_new_note_fires(notes: Seq<NoteEntry>, t: u64, prev: Set<u64>, j: int)
    requires
        0 <= j < notes.len(),
        active_at(notes[j].note, t),
        !prev.contains(notes[j].id),
    ensures
        spec_emitted(notes, t, prev).contains(PlayEvent(notes[j].note)),
    decreases notes.len(),
{
    let e = notes.last();
    let rest = spec_emitted(notes.drop_last(), t, prev);
    if j == notes.len() - 1 {
        let emitted = rest.push(PlayEvent(e.note));
        assert(emitted[emitted.len() - 1] == PlayEvent(notes[j].note));
    } else {
        assert(notes.drop_last()[j] == notes[j]);
        lemma_new_note_fires(notes.drop_last(), t, prev, j);
        let ev = PlayEvent(notes[j].note);
        let k = choose|k: int| 0 <= k < rest.len() && rest[k] == ev;
        if active_at(e.note, t) && !prev.contains(e.id) {
            assert(rest.push(PlayEvent(e.note))[k] == ev);
        }
    }
}

/// The trigger emitter: keeps, across ticks, the identities of the notes
/// that were active in the previous tick, and fires an event exactly for
/// the notes newly active in the current one.
pub struct TriggerEmitter {
    played: PlayedSet,
}

impl View for TriggerEmitter {
    type V = Set<u64>;

    closed spec fn view(&self) -> Set<u64> {
        played_contents(self.played)
    }
}

impl TriggerEmitter {
    /// A fresh emitter: nothing counts as previously active.
    pub fn new() -> (e: TriggerEmitter)
        ensures
            e@ == Set::<u64>::empty(),
    {
        TriggerEmitter { played: PlayedSet::new() }
    }

    /// One sampling pass over the sequencer's notes at its current play
    /// position. Emits one event per newly active note, in note-list
    /// order, and replaces — not merges — the carried set with the notes
    /// active now, which is what yields once-per-activation rather than
    /// once-ever. A note created while the cursor already sits inside its
    /// span was absent from the carried set, so it fires on its first
    /// tick.
    pub fn play_note(&mut self, seq: &Sequencer) -> (events: Vec<PlayEvent>)
        requires
            seq.wf(),
        ensures
            events@ == spec_emitted(seq@.notes, seq.play_pos, old(self)@),
            final(self)@ == spec_active_ids(seq@.notes, seq.play_pos),
    {
        let last_played = self.played.take();
        let t = seq.play_pos;
        let mut events: Vec<PlayEvent> = Vec::new();
        let mut i: usize = 0;
        while i < seq.notes.len()
            invariant
                seq.wf(),
                t == seq.play_pos,
                i <= seq.notes@.len(),
                events@ == spec_emitted(seq.notes@.take(i as int), t, played_contents(last_played)),
                played_contents(self.played) == spec_active_ids(seq.notes@.take(i as int), t),
            decreases seq.notes@.len() - i,
        {
            let e = seq.notes[i];
            proof {
                assert(seq.notes@.take(i + 1).drop_last() =~= seq.notes@.take(i as int));
                assert(seq.notes@.take(i + 1).last() == seq.notes@[i as int]);
            }
            if t > e.note.pos && t < e.note.pos + e.note.width {
                if !last_played.contains(e.id) {
                    events.push(PlayEvent(e.note));
                }
                self.played.insert(e.id);
            }
            i = i + 1;
        }
        proof {
            assert(seq.notes@.take(seq.notes@.len() as int) =~= seq.notes@);
        }
        events
    }
}

} // verus!
