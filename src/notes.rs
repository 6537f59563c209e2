//! The held-note stack driven by raw MIDI messages.
//!
//! Only channel-0 Note-On and Note-Off messages matter. The stack keeps every
//! held note once, in the order the notes were pressed; the note to play is the
//! top of the stack, and when the stack empties the last note played is kept so
//! that a releasing envelope still has a pitch.

use std::sync::Arc;
use vstd::prelude::*;
use crate::state::SynthState;

verus! {

/// Status byte of a Note-On message on channel 0.
pub const NOTE_ON: u8 = 0x90;

/// Status byte of a Note-Off message on channel 0.
pub const NOTE_OFF: u8 = 0x80;

/// Length of a note message: status, note number, velocity.
pub const NOTE_MESSAGE_LEN: usize = 3;

/// A message that changes which notes are held.
#[derive(PartialEq, Eq, Structural, Clone, Copy, Debug)]
pub enum NoteEvent {
    Press(u8),
    Release(u8),
}

/// The event a raw MIDI message carries: status, note and velocity come first,
/// shorter messages and every other status are ignored, and a Note-On with
/// velocity 0 is a release.
pub open spec fn message_event(msg: Seq<u8>) -> Option<NoteEvent> {
    if msg.len() < NOTE_MESSAGE_LEN {
        None
    } else if msg[0] == NOTE_ON && msg[2] > 0 {
        Some(NoteEvent::Press(msg[1]))
    } else if msg[0] == NOTE_OFF || (msg[0] == NOTE_ON && msg[2] == 0) {
        Some(NoteEvent::Release(msg[1]))
    } else {
        None
    }
}

/// The stack after `note` is pressed: pushed on top unless already held.
pub open spec fn press(held: Seq<u8>, note: u8) -> Seq<u8> {
    if held.contains(note) {
        held
    } else {
        held.push(note)
    }
}

/// The stack after `note` is released: its entry is taken out if present.
pub open spec fn release(held: Seq<u8>, note: u8) -> Seq<u8> {
    held.remove_value(note)
}

/// The stack after an event.
pub open spec fn held_after(held: Seq<u8>, event: NoteEvent) -> Seq<u8> {
    match event {
        NoteEvent::Press(n) => press(held, n),
        NoteEvent::Release(n) => release(held, n),
    }
}

/// The note to play for a stack: its top, or `previous` once it is empty.
pub open spec fn top_or(held: Seq<u8>, previous: u8) -> u8 {
    if held.len() > 0 {
        held.last()
    } else {
        previous
    }
}

/// Decodes a raw MIDI message.
pub fn parse_note_message(message: &[u8]) -> (r: Option<NoteEvent>)
    ensures
        r == message_event(message@),
{
    if message.len() < NOTE_MESSAGE_LEN {
        return None;
    }
    let status = message[0];
    let note = message[1];
    let velocity = message[2];
    if status == NOTE_ON && velocity > 0 {
        Some(NoteEvent::Press(note))
    } else if status == NOTE_OFF || (status == NOTE_ON && velocity == 0) {
        Some(NoteEvent::Release(note))
    } else {
        None
    }
}

/// The notes currently held and the note to play.
pub struct NoteTracker {
    notes: Vec<u8>,
    last_note: u8,
}

impl NoteTracker {
    /// The held notes, oldest first.
    pub closed spec fn held(self) -> Seq<u8> {
        self.notes@
    }

    /// The note to play.
    pub closed spec fn current(self) -> u8 {
        self.last_note
    }

    /// Each note is held once, and while any is held the note to play is the
    /// most recently pressed of them.
    pub open spec fn wf(self) -> bool {
        &&& self.held().no_duplicates()
        &&& self.held().len() > 0 ==> self.current() == self.held().last()
    }

    /// No note held; the note to play is 0 until one is pressed.
    pub fn new() -> (r: Self)
        ensures
            r.wf(),
            r.held() == Seq::<u8>::empty(),
            r.current() == 0,
    {
        NoteTracker { notes: Vec::new(), last_note: 0 }
    }

    /// Where `note` stands in the stack, if it is held.
    fn position_of(&self, note: u8) -> (r: Option<usize>)
        ensures
            match r {
                Some(i) => {
                    &&& i < self.held().len()
                    &&& self.held()[i as int] == note
                    &&& forall|j: int| 0 <= j < i ==> self.held()[j] != note
                },
                None => !self.held().contains(note),
            },
    {
        let mut i: usize = 0;
        while i < self.notes.len()
            invariant
                i <= self.notes@.len(),
                forall|j: int| 0 <= j < i ==> self.notes@[j] != note,
            decreases self.notes@.len() - i,
        {
            if self.notes[i] == note {
                return Some(i);
            }
            i = i + 1;
        }
        None
    }

    /// Applies one event to the stack and recomputes the note to play.
    pub fn on_event(&mut self, event: NoteEvent)
        requires
            old(self).wf(),
        ensures
            final(self).wf(),
            final(self).held() == held_after(old(self).held(), event),
            final(self).current() == top_or(final(self).held(), old(self).current()),
    {
        proof {
            lemma_event_keeps_notes_distinct(self.held(), event);
        }
        match event {
            NoteEvent::Press(note) => {
                if self.position_of(note).is_none() {
                    self.notes.push(note);
                }
            },
            NoteEvent::Release(note) => {
                let pos = self.position_of(note);
                proof {
                    self.held().index_of_first_ensures(note);
                }
                if let Some(i) = pos {
                    proof {
                        let k = self.held().index_of_first(note).unwrap();
                        if k < i as int {
                            assert(self.held()[k] != note);
                        }
                        if (i as int) < k {
                            assert(self.held()[i as int] != note);
                        }
                    }
                    self.notes.remove(i);
                }
            },
        }
        if self.notes.len() > 0 {
            self.last_note = self.notes[self.notes.len() - 1];
        }
    }

    /// Applies a raw MIDI message. Returns whether it was a note message; the
    /// stack and the note to play change only when it was.
    pub fn on_midi_message(&mut self, message: &[u8]) -> (accepted: bool)
        requires
            old(self).wf(),
        ensures
            final(self).wf(),
            accepted == message_event(message@).is_some(),
            match message_event(message@) {
                Some(event) => {
                    &&& final(self).held() == held_after(old(self).held(), event)
                    &&& final(self).current() == top_or(final(self).held(), old(self).current())
                },
                None => *final(self) == *old(self),
            },
    {
        match parse_note_message(message) {
            Some(event) => {
                self.on_event(event);
                true
            },
            None => false,
        }
    }

    /// Whether any note is held.
    pub fn gate_open(&self) -> (r: bool)
        ensures
            r == (self.held().len() > 0),
    {
        self.notes.len() > 0
    }

    /// The note to play.
    pub fn last_active_note(&self) -> (r: u8)
        ensures
            r == self.current(),
    {
        self.last_note
    }

    /// The held notes, oldest first.
    pub fn held_notes(&self) -> (r: Vec<u8>)
        ensures
            r@ == self.held(),
    {
        self.notes.clone()
    }
}

/// Handles the MIDI input of the synthesizer: keeps the note stack and, after
/// each note message, publishes its gate flag and the note to play into the shared
/// parameter store.
pub struct MidiService {
    tracker: NoteTracker,
    params: Arc<SynthState>,
}

impl MidiService {
    /// The note stack behind the service.
    pub closed spec fn tracker(self) -> NoteTracker {
        self.tracker
    }

    /// A service with no note held, publishing into `params`.
    pub fn new(params: Arc<SynthState>) -> (r: Self)
        ensures
            r.tracker().wf(),
            r.tracker().held() == Seq::<u8>::empty(),
            r.tracker().current() == 0,
    {
        MidiService { tracker: NoteTracker::new(), params }
    }

    /// Applies a raw MIDI message; after a note message, whether any note is
    /// held and the note to play are stored into the parameter store.
    pub fn handle_message(&mut self, message: &[u8])
        requires
            old(self).tracker().wf(),
        ensures
            final(self).tracker().wf(),
            match message_event(message@) {
                Some(event) => {
                    &&& final(self).tracker().held() == held_after(old(self).tracker().held(), event)
                    &&& final(self).tracker().current() == top_or(
                        final(self).tracker().held(),
                        old(self).tracker().current(),
                    )
                },
                None => final(self).tracker() == old(self).tracker(),
            },
    {
        if self.tracker.on_midi_message(message) {
            self.params.publish(self.tracker.gate_open(), self.tracker.last_active_note());
        }
    }

    /// The note stack behind the service.
    pub fn note_tracker(&self) -> (r: &NoteTracker)
        ensures
            *r == self.tracker(),
    {
        &self.tracker
    }
}

/// Pressing a note that is already held leaves the stack as it is; in
/// particular pressing the same note twice is the same as pressing it once.
pub proof fn lemma_press_held_note_is_noop(held: Seq<u8>, note: u8)
    ensures
        held.contains(note) ==> press(held, note) == held,
        press(press(held, note), note) == press(held, note),
{
    if !held.contains(note) {
        assert(press(held, note).last() == note);
        assert(press(held, note).contains(note));
    }
}

/// Releasing a note that is not held leaves the stack as it is.
pub proof fn lemma_release_absent_note_is_noop(held: Seq<u8>, note: u8)
    requires
        !held.contains(note),
    ensures
        release(held, note) == held,
{
    held.index_of_first_ensures(note);
}

/// Releasing the note on top of the stack pops it: the note to play becomes
/// the new top, or stays the released note when nothing is held any more.
pub proof fn lemma_release_top_reveals_next(held: Seq<u8>)
    requires
        held.no_duplicates(),
        held.len() > 0,
    ensures
        release(held, held.last()) == held.drop_last(),
        top_or(release(held, held.last()), held.last()) == (if held.len() > 1 {
            held[held.len() - 2]
        } else {
            held.last()
        }),
{
    let n = held.last();
    let k = held.len() - 1;
    held.index_of_first_ensures(n);
    assert(held.contains(n)) by {
        assert(held[k] == n);
    }
    let i = held.index_of_first(n).unwrap();
    assert(i == k);
    assert(held.remove(k) =~= held.drop_last());
}

/// Every event keeps each note at most once in the stack.
pub proof fn lemma_event_keeps_notes_distinct(held: Seq<u8>, event: NoteEvent)
    requires
        held.no_duplicates(),
    ensures
        held_after(held, event).no_duplicates(),
{
    match event {
        NoteEvent::Press(n) => {},
        NoteEvent::Release(n) => {
            held.index_of_first_ensures(n);
            if held.contains(n) {
                let k = held.index_of_first(n).unwrap();
                held.remove_ensures(k);
                let r = held.remove(k);
                assert forall|a: int, b: int| 0 <= a < r.len() && 0 <= b < r.len() && a != b
                    implies r[a] != r[b] by {
                    let a0 = if a < k { a } else { a + 1 };
                    let b0 = if b < k { b } else { b + 1 };
                    assert(r[a] == held[a0]);
                    assert(r[b] == held[b0]);
                }
            }
        },
    }
}

} // verus!
