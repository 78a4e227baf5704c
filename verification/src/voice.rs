//! The table of sounding voices of one sample.
//!
//! A voice is one playing instance of the sample. The table keeps the voices
//! in the order in which they started, oldest first, and never holds more than
//! the polyphony it was made with. It records what a renderer needs to derive
//! gain and pitch of a voice, and where the voice stands in its envelope. A
//! voice leaves the table at the beginning of the first block that finds its
//! envelope idle, or when the renderer reports that its sample has run out.

use crate::envelope::{AdsrEnvelope, Phase, StageLengths};
use crate::note_set::NoteSet;
use vstd::prelude::*;

verus! {

/// The largest polyphony a table can be made with.
pub const POLYPHONY_LIMIT: usize = 4096;

/// One sounding instance of a sample.
#[derive(Clone, Copy, Debug, PartialEq, Eq)]
pub struct Voice {
    /// The key the voice sounds at.
    pub note: u8,
    /// The velocity its gain is derived from, after velocity tracking has
    /// been applied.
    pub velocity: u8,
    /// Frames that passed between the firing before this one and this one,
    /// for a region that sounds on release; zero for any other region.
    pub elapsed_frames: u64,
    /// Where the voice stands in its envelope. A voice whose note is no
    /// longer held is releasing.
    pub envelope: AdsrEnvelope,
    /// The number under which the renderer knows the voice.
    pub serial: u64,
}

impl Voice {
    /// The note of the voice is off: the voice fades out, or has faded out
    /// and waits to be taken out of the table.
    pub open spec fn spec_releasing(&self) -> bool {
        !self.envelope.held()
    }

    /// Whether the note of the voice is off.
    #[verifier::when_used_as_spec(spec_releasing)]
    pub fn releasing(&self) -> (b: bool)
        ensures
            b == self.spec_releasing(),
    {
        !self.envelope.is_held()
    }
}

/// The voice after its release.
pub open spec fn released(v: Voice) -> Voice {
    Voice { envelope: v.envelope.after_note_off(), ..v }
}

/// The voice after a block of `frames` frames.
pub open spec fn advanced(v: Voice, frames: usize) -> Voice {
    Voice { envelope: v.envelope.after(frames), ..v }
}

/// `v` sounds `note` and has not been released.
pub open spec fn is_held(v: Voice, note: u8) -> bool {
    v.note == note && v.envelope.held()
}

/// The voice at `i` is the oldest one among those that satisfy `p`.
pub open spec fn is_oldest(voices: Seq<Voice>, p: spec_fn(Voice) -> bool, i: int) -> bool {
    &&& 0 <= i < voices.len()
    &&& p(voices[i])
    &&& forall|j: int| 0 <= j < i ==> !p(#[trigger] voices[j])
}

/// The place of the oldest voice that satisfies `p`, if there is one.
pub open spec fn oldest(voices: Seq<Voice>, p: spec_fn(Voice) -> bool) -> Option<int> {
    if exists|i: int| is_oldest(voices, p, i) {
        Some(choose|i: int| is_oldest(voices, p, i))
    } else {
        None
    }
}

pub open spec fn is_releasing() -> spec_fn(Voice) -> bool {
    |v: Voice| v.spec_releasing()
}

pub open spec fn still_sounds() -> spec_fn(Voice) -> bool {
    |v: Voice| v.envelope.sounds()
}

pub open spec fn advance_by(frames: usize) -> spec_fn(Voice) -> Voice {
    |v: Voice| advanced(v, frames)
}

pub open spec fn has_serial(serial: u64) -> spec_fn(Voice) -> bool {
    |v: Voice| v.serial == serial
}

/// The voice at `i` is held and no older voice holds the same note.
pub open spec fn oldest_held(voices: Seq<Voice>, i: int) -> bool {
    &&& 0 <= i < voices.len()
    &&& voices[i].envelope.held()
    &&& forall|j: int| 0 <= j < i ==> !is_held(#[trigger] voices[j], voices[i].note)
}

/// For each note in `notes`, the oldest held voice of that note is released.
pub open spec fn release_oldest(voices: Seq<Voice>, notes: Set<u8>) -> Seq<Voice> {
    Seq::new(
        voices.len(),
        |i: int|
            if notes.contains(voices[i].note) && oldest_held(voices, i) {
                released(voices[i])
            } else {
                voices[i]
            },
    )
}

/// Every voice of `note` is released.
pub open spec fn release_note(voices: Seq<Voice>, note: u8) -> Seq<Voice> {
    Seq::new(
        voices.len(),
        |i: int|
            if voices[i].note == note {
                released(voices[i])
            } else {
                voices[i]
            },
    )
}

/// The voice after its release has fallen below the floor.
pub open spec fn faded(v: Voice) -> Voice {
    Voice { envelope: v.envelope.after_floor(), ..v }
}

/// Every voice is released.
pub open spec fn release_all(voices: Seq<Voice>) -> Seq<Voice> {
    Seq::new(voices.len(), |i: int| released(voices[i]))
}

/// The voices after a block of `frames` frames: those whose envelope had
/// fallen idle before the block are gone, the others have moved on in their
/// envelopes.
pub open spec fn after_block(voices: Seq<Voice>, frames: usize) -> Seq<Voice> {
    voices.filter(still_sounds()).map_values(advance_by(frames))
}

/// The place of the voice that makes room in a full table: the oldest
/// releasing one, or the oldest of all where none is releasing.
pub open spec fn victim(voices: Seq<Voice>) -> int {
    match oldest(voices, is_releasing()) {
        Some(i) => i,
        None => 0,
    }
}

/// The serial that follows `serial`.
pub open spec fn next_serial(serial: u64) -> u64 {
    if serial == u64::MAX {
        0
    } else {
        (serial + 1) as u64
    }
}

/// What a voice table holds.
pub struct SampleVoiceView {
    /// The sounding voices, oldest first.
    pub voices: Seq<Voice>,
    /// The polyphony: the most voices that sound at once.
    pub max_voices: usize,
    /// The serial that the next voice gets.
    pub next_serial: u64,
    /// The stage lengths of the envelope that each voice starts with.
    pub lengths: StageLengths,
}

impl SampleVoiceView {
    /// The table holds no more voices than its polyphony, which is within the
    /// limit.
    pub open spec fn wf(self) -> bool {
        &&& self.voices.len() <= self.max_voices
        &&& self.max_voices <= POLYPHONY_LIMIT
        &&& forall|i: int|
            0 <= i < self.voices.len() ==> (#[trigger] self.voices[i]).envelope.lengths
                == self.lengths && self.voices[i].envelope.wf()
    }

    /// The voice that a note-on starts.
    pub open spec fn fresh_voice(self, note: u8, velocity: u8, elapsed_frames: u64) -> Voice {
        Voice {
            note,
            velocity,
            elapsed_frames,
            envelope: AdsrEnvelope { lengths: self.lengths, phase: Phase::Held(0) },
            serial: self.next_serial,
        }
    }

    /// A note-on: the voices of `note` that sound are released and a new one
    /// starts. Where the table is full, the victim leaves first. A table of
    /// polyphony zero starts nothing.
    pub open spec fn note_on(self, note: u8, velocity: u8, elapsed_frames: u64) -> Self {
        let marked = release_note(self.voices, note);
        let voice = self.fresh_voice(note, velocity, elapsed_frames);
        if self.max_voices == 0 {
            SampleVoiceView { voices: marked, ..self }
        } else if marked.len() < self.max_voices {
            SampleVoiceView {
                voices: marked.push(voice),
                next_serial: next_serial(self.next_serial),
                ..self
            }
        } else {
            SampleVoiceView {
                voices: marked.remove(victim(marked)).push(voice),
                next_serial: next_serial(self.next_serial),
                ..self
            }
        }
    }

    /// A note-off: the oldest held voice of `note` is released.
    pub open spec fn note_off(self, note: u8) -> Self {
        SampleVoiceView { voices: release_oldest(self.voices, set![note]), ..self }
    }

    /// A note-off for each note in `notes`.
    pub open spec fn release_notes(self, notes: Set<u8>) -> Self {
        SampleVoiceView { voices: release_oldest(self.voices, notes), ..self }
    }

    /// Every voice is released.
    pub open spec fn all_notes_off(self) -> Self {
        SampleVoiceView { voices: release_all(self.voices), ..self }
    }

    /// A block of `frames` frames has been rendered.
    pub open spec fn process(self, frames: usize) -> Self {
        SampleVoiceView { voices: after_block(self.voices, frames), ..self }
    }

    /// The oldest voice known under `serial` has run out and leaves.
    pub open spec fn retire(self, serial: u64) -> Self {
        match oldest(self.voices, has_serial(serial)) {
            Some(i) => SampleVoiceView { voices: self.voices.remove(i), ..self },
            None => self,
        }
    }

    /// The release of the oldest voice known under `serial` has fallen below
    /// the floor: its envelope falls idle.
    pub open spec fn floor_reached(self, serial: u64) -> Self {
        match oldest(self.voices, has_serial(serial)) {
            Some(i) => SampleVoiceView { voices: self.voices.update(i, faded(self.voices[i])), ..self },
            None => self,
        }
    }

    /// A voice is in the table, released or not.
    pub open spec fn is_playing(self) -> bool {
        self.voices.len() > 0
    }

    /// A voice of `note` sounds that has not been released.
    pub open spec fn is_playing_note(self, note: u8) -> bool {
        exists|i: int| 0 <= i < self.voices.len() && is_held(#[trigger] self.voices[i], note)
    }

    /// A released voice of `note` still sounds.
    pub open spec fn is_releasing_note(self, note: u8) -> bool {
        exists|i: int|
            0 <= i < self.voices.len() && (#[trigger] self.voices[i]).note == note
                && self.voices[i].spec_releasing()
    }
}

/// The oldest voice with a property is the only one that is the oldest.
pub proof fn lemma_oldest_is(voices: Seq<Voice>, p: spec_fn(Voice) -> bool, i: int)
    requires
        is_oldest(voices, p, i),
    ensures
        oldest(voices, p) == Some(i),
{
    let c = choose|k: int| is_oldest(voices, p, k);
    assert(is_oldest(voices, p, c));
    if c < i {
        assert(!p(voices[c]));
    }
    if i < c {
        assert(!p(voices[i]));
    }
}

/// Where no voice has a property, none is the oldest with it.
pub proof fn lemma_oldest_none(voices: Seq<Voice>, p: spec_fn(Voice) -> bool)
    requires
        forall|j: int| 0 <= j < voices.len() ==> !p(#[trigger] voices[j]),
    ensures
        oldest(voices, p) == None::<int>,
{
}

/// Releasing voices keeps a table well formed.
pub proof fn lemma_release_keeps_wf(s: SampleVoiceView, note: u8)
    requires
        s.wf(),
    ensures
        (SampleVoiceView { voices: release_note(s.voices, note), ..s }).wf(),
{
    let after = release_note(s.voices, note);
    assert forall|i: int| 0 <= i < after.len() implies (#[trigger] after[i]).envelope.lengths
        == s.lengths && after[i].envelope.wf() by {
        assert(s.voices[i].envelope.wf());
    }
}

/// No voices, no voices after a block.
pub proof fn lemma_after_block_empty(frames: usize)
    ensures
        after_block(Seq::<Voice>::empty(), frames) == Seq::<Voice>::empty(),
{
    reveal(Seq::filter);
    assert(after_block(Seq::<Voice>::empty(), frames) =~= Seq::<Voice>::empty());
}

/// A block deals with the voices one by one: a voice that sounds moves on
/// behind the ones before it, one that has fallen idle leaves.
pub proof fn lemma_after_block_push(voices: Seq<Voice>, v: Voice, frames: usize)
    ensures
        after_block(voices.push(v), frames) == if v.envelope.sounds() {
            after_block(voices, frames).push(advanced(v, frames))
        } else {
            after_block(voices, frames)
        },
{
    reveal(Seq::filter);
    let all = voices.push(v);
    assert(all.drop_last() =~= voices);
    assert(all.last() == v);
    if v.envelope.sounds() {
        assert(all.filter(still_sounds()) == voices.filter(still_sounds()).push(v));
        assert(after_block(all, frames) =~= after_block(voices, frames).push(advanced(v, frames)));
    } else {
        assert(all.filter(still_sounds()) == voices.filter(still_sounds()));
    }
}

/// The same, for the first `i + 1` voices of a table.
pub proof fn lemma_after_block_step(voices: Seq<Voice>, i: int, frames: usize)
    requires
        0 <= i < voices.len(),
    ensures
        after_block(voices.subrange(0, i + 1), frames) == if voices[i].envelope.sounds() {
            after_block(voices.subrange(0, i), frames).push(advanced(voices[i], frames))
        } else {
            after_block(voices.subrange(0, i), frames)
        },
{
    assert(voices.subrange(0, i + 1) =~= voices.subrange(0, i).push(voices[i]));
    lemma_after_block_push(voices.subrange(0, i), voices[i], frames);
}

/// A block leaves no more voices than there were, each with its envelope in
/// order.
pub proof fn lemma_block_keeps_wf(s: SampleVoiceView, frames: usize)
    requires
        s.wf(),
    ensures
        s.process(frames).wf(),
    decreases s.voices.len(),
{
    if s.voices.len() == 0 {
        lemma_after_block_empty(frames);
        assert(s.voices =~= Seq::<Voice>::empty());
    } else {
        let init = SampleVoiceView { voices: s.voices.drop_last(), ..s };
        assert forall|i: int| 0 <= i < init.voices.len() implies (
        #[trigger] init.voices[i]).envelope.lengths == s.lengths && init.voices[i].envelope.wf() by {
            assert(init.voices[i] == s.voices[i]);
        }
        lemma_block_keeps_wf(init, frames);
        assert(s.voices =~= init.voices.push(s.voices.last()));
        lemma_after_block_push(init.voices, s.voices.last(), frames);
        let after = s.process(frames).voices;
        assert forall|i: int| 0 <= i < after.len() implies (#[trigger] after[i]).envelope.lengths
            == s.lengths && after[i].envelope.wf() by {
            if i < init.process(frames).voices.len() {
                assert(after[i] == init.process(frames).voices[i]);
            } else {
                assert(after[i] == advanced(s.voices.last(), frames));
            }
        }
    }
}

/// The voice table of one sample.
pub struct SampleVoice {
    voices: Vec<Voice>,
    max_voices: usize,
    next_serial: u64,
    lengths: StageLengths,
}

impl View for SampleVoice {
    type V = SampleVoiceView;

    closed spec fn view(&self) -> SampleVoiceView {
        SampleVoiceView {
            voices: self.voices@,
            max_voices: self.max_voices,
            next_serial: self.next_serial,
            lengths: self.lengths,
        }
    }
}

impl SampleVoice {
    /// The table holds no more voices than its polyphony, which is within the
    /// limit.
    pub open spec fn wf(&self) -> bool {
        self@.wf()
    }

    /// The polyphony a table gets when `max_voices` is asked for.
    pub open spec fn granted(max_voices: usize) -> usize {
        if max_voices > POLYPHONY_LIMIT {
            POLYPHONY_LIMIT
        } else {
            max_voices
        }
    }

    /// An empty table with room for `max_voices` voices, or for
    /// [`POLYPHONY_LIMIT`] if that is less, whose voices get envelopes of the
    /// given stage lengths. The room is set aside here, so that starting a
    /// voice later does not allocate.
    pub fn new(lengths: StageLengths, max_voices: usize) -> (s: SampleVoice)
        ensures
            s.wf(),
            s@.voices == Seq::<Voice>::empty(),
            s@.max_voices == Self::granted(max_voices),
            s@.next_serial == 0,
            s@.lengths == lengths,
    {
        let granted: usize = if max_voices > POLYPHONY_LIMIT {
            POLYPHONY_LIMIT
        } else {
            max_voices
        };
        SampleVoice {
            voices: Vec::with_capacity(granted),
            max_voices: granted,
            next_serial: 0,
            lengths,
        }
    }

    /// The place of the voice that leaves a full table.
    fn find_victim(&self) -> (k: usize)
        requires
            self@.voices.len() > 0,
        ensures
            k == victim(self@.voices),
            k < self@.voices.len(),
    {
        let n: usize = self.voices.len();
        let mut i: usize = 0;
        while i < n
            invariant
                n == self.voices.len(),
                i <= n,
                forall|j: int| 0 <= j < i ==> !(#[trigger] self.voices@[j]).spec_releasing(),
            decreases n - i,
        {
            if self.voices[i].releasing() {
                proof {
                    assert forall|j: int| 0 <= j < i implies !(is_releasing())(
                        #[trigger] self.voices@[j],
                    ) by {
                        assert(!self.voices@[j].spec_releasing());
                    }
                    lemma_oldest_is(self.voices@, is_releasing(), i as int);
                }
                return i;
            }
            i = i + 1;
        }
        proof {
            assert forall|j: int| 0 <= j < self.voices@.len() implies !(is_releasing())(
                #[trigger] self.voices@[j],
            ) by {
                assert(!self.voices@[j].spec_releasing());
            }
            lemma_oldest_none(self.voices@, is_releasing());
        }
        0
    }

    /// Starts a voice for `note`. Voices of that note that still sound are
    /// released; where the table is full, the oldest releasing voice is taken
    /// out to make room, or the oldest of all if none is releasing.
    pub fn note_on(&mut self, note: u8, velocity: u8, elapsed_frames: u64)
        requires
            old(self).wf(),
        ensures
            final(self).wf(),
            final(self)@ == old(self)@.note_on(note, velocity, elapsed_frames),
    {
        let n: usize = self.voices.len();
        let mut i: usize = 0;
        while i < n
            invariant
                n == self.voices.len(),
                n == old(self).voices.len(),
                i <= n,
                old(self).wf(),
                self.max_voices == old(self).max_voices,
                self.next_serial == old(self).next_serial,
                self.lengths == old(self).lengths,
                forall|j: int|
                    0 <= j < i ==> #[trigger] self.voices@[j] == release_note(
                        old(self).voices@,
                        note,
                    )[j],
                forall|j: int| i <= j < n ==> #[trigger] self.voices@[j] == old(self).voices@[j],
            decreases n - i,
        {
            if self.voices[i].note == note {
                self.voices[i].envelope.note_off();
            }
            i = i + 1;
        }
        assert(self.voices@ =~= release_note(old(self).voices@, note));
        proof {
            lemma_release_keeps_wf(old(self)@, note);
        }
        if self.max_voices == 0 {
            return ;
        }
        if self.voices.len() >= self.max_voices {
            let k: usize = self.find_victim();
            self.voices.remove(k);
        }
        self.voices.push(
            Voice {
                note,
                velocity,
                elapsed_frames,
                envelope: AdsrEnvelope { lengths: self.lengths, phase: Phase::Held(0) },
                serial: self.next_serial,
            },
        );
        self.next_serial = if self.next_serial == u64::MAX {
            0
        } else {
            self.next_serial + 1
        };
    }

    /// Releases the oldest voice of `note` that has not been released yet.
    pub fn note_off(&mut self, note: u8)
        requires
            old(self).wf(),
        ensures
            final(self).wf(),
            final(self)@ == old(self)@.note_off(note),
    {
        let n: usize = self.voices.len();
        let mut i: usize = 0;
        while i < n
            invariant
                n == self.voices.len(),
                i <= n,
                *self == *old(self),
                old(self).wf(),
                forall|j: int| 0 <= j < i ==> !is_held(#[trigger] self.voices@[j], note),
            decreases n - i,
        {
            if self.voices[i].note == note && self.voices[i].envelope.is_held() {
                self.voices[i].envelope.note_off();
                assert(self.voices@ =~= release_oldest(old(self).voices@, set![note]));
                return ;
            }
            i = i + 1;
        }
        assert(self.voices@ =~= release_oldest(old(self).voices@, set![note]));
    }

    /// Releases, for each note in `notes`, the oldest voice of that note that
    /// has not been released yet.
    pub fn release_notes(&mut self, notes: &NoteSet)
        requires
            old(self).wf(),
        ensures
            final(self).wf(),
            final(self)@ == old(self)@.release_notes(notes@),
    {
        let ghost before = self.voices@;
        let mut seen = NoteSet::new();
        let n: usize = self.voices.len();
        let mut i: usize = 0;
        while i < n
            invariant
                n == self.voices.len(),
                before == old(self).voices@,
                n == before.len(),
                i <= n,
                old(self).wf(),
                self.max_voices == old(self).max_voices,
                self.next_serial == old(self).next_serial,
                self.lengths == old(self).lengths,
                forall|m: u8|
                    seen@.contains(m) <==> exists|j: int|
                        0 <= j < i && is_held(#[trigger] before[j], m),
                forall|j: int|
                    0 <= j < i ==> #[trigger] self.voices@[j] == release_oldest(before, notes@)[j],
                forall|j: int| i <= j < n ==> #[trigger] self.voices@[j] == before[j],
            decreases n - i,
        {
            let v: Voice = self.voices[i];
            if v.envelope.is_held() {
                let first: bool = !seen.contains(v.note);
                proof {
                    if first {
                        assert forall|j: int| 0 <= j < i implies !is_held(
                            #[trigger] before[j],
                            v.note,
                        ) by {
                            if is_held(before[j], v.note) {
                                assert(seen@.contains(v.note));
                            }
                        }
                        assert(oldest_held(before, i as int));
                    } else {
                        assert(!oldest_held(before, i as int));
                    }
                }
                let ghost seen_before = seen@;
                seen.insert(v.note);
                if first && notes.contains(v.note) {
                    self.voices[i].envelope.note_off();
                }
                proof {
                    assert(is_held(before[i as int], v.note));
                    assert forall|m: u8|
                        seen@.contains(m) <==> exists|j: int|
                            0 <= j < i + 1 && is_held(#[trigger] before[j], m) by {
                        if seen@.contains(m) {
                            if seen_before.contains(m) {
                                let j = choose|j: int| 0 <= j < i && is_held(#[trigger] before[j], m);
                                assert(0 <= j < i + 1 && is_held(before[j], m));
                            } else {
                                assert(m == v.note);
                                assert(0 <= i < i + 1 && is_held(before[i as int], m));
                            }
                        }
                        if exists|j: int| 0 <= j < i + 1 && is_held(#[trigger] before[j], m) {
                            let j = choose|j: int| 0 <= j < i + 1 && is_held(#[trigger] before[j], m);
                            if j < i {
                                assert(seen_before.contains(m));
                            } else {
                                assert(m == v.note);
                            }
                        }
                    }
                }
            } else {
                proof {
                    assert(!oldest_held(before, i as int));
                    assert forall|m: u8|
                        seen@.contains(m) <==> exists|j: int|
                            0 <= j < i + 1 && is_held(#[trigger] before[j], m) by {
                        if seen@.contains(m) {
                            let j = choose|j: int| 0 <= j < i && is_held(#[trigger] before[j], m);
                            assert(0 <= j < i + 1 && is_held(before[j], m));
                        }
                        if exists|j: int| 0 <= j < i + 1 && is_held(#[trigger] before[j], m) {
                            let j = choose|j: int| 0 <= j < i + 1 && is_held(#[trigger] before[j], m);
                            assert(j < i);
                        }
                    }
                }
            }
            i = i + 1;
        }
        assert(self.voices@ =~= release_oldest(before, notes@));
    }

    /// Releases every voice.
    pub fn all_notes_off(&mut self)
        requires
            old(self).wf(),
        ensures
            final(self).wf(),
            final(self)@ == old(self)@.all_notes_off(),
    {
        let n: usize = self.voices.len();
        let mut i: usize = 0;
        while i < n
            invariant
                n == self.voices.len(),
                n == old(self).voices.len(),
                i <= n,
                old(self).wf(),
                self.max_voices == old(self).max_voices,
                self.next_serial == old(self).next_serial,
                self.lengths == old(self).lengths,
                forall|j: int|
                    0 <= j < i ==> #[trigger] self.voices@[j] == released(old(self).voices@[j]),
                forall|j: int| i <= j < n ==> #[trigger] self.voices@[j] == old(self).voices@[j],
            decreases n - i,
        {
            self.voices[i].envelope.note_off();
            i = i + 1;
        }
        assert(self.voices@ =~= release_all(old(self).voices@));
    }

    /// Counts a rendered block of `frames` frames: voices whose envelope had
    /// fallen idle before the block are taken out, and the others move on in
    /// their envelopes.
    pub fn process(&mut self, frames: usize)
        requires
            old(self).wf(),
        ensures
            final(self).wf(),
            final(self)@ == old(self)@.process(frames),
    {
        let ghost before = self.voices@;
        let n: usize = self.voices.len();
        let mut kept: usize = 0;
        let mut i: usize = 0;
        proof {
            assert(before.subrange(0, 0) =~= Seq::<Voice>::empty());
            lemma_after_block_empty(frames);
            assert(self.voices@.subrange(0, 0) =~= Seq::<Voice>::empty());
        }
        while i < n
            invariant
                n == self.voices.len(),
                before == old(self).voices@,
                n == before.len(),
                kept <= i <= n,
                old(self).wf(),
                self.max_voices == old(self).max_voices,
                self.next_serial == old(self).next_serial,
                self.lengths == old(self).lengths,
                self.voices@.subrange(0, kept as int) == after_block(
                    before.subrange(0, i as int),
                    frames,
                ),
                forall|j: int| i <= j < n ==> #[trigger] self.voices@[j] == before[j],
            decreases n - i,
        {
            let v: Voice = self.voices[i];
            let ghost earlier = self.voices@.subrange(0, kept as int);
            proof {
                lemma_after_block_step(before, i as int, frames);
            }
            if v.envelope.is_playing_or_releasing() {
                let mut moved: Voice = v;
                moved.envelope.advance(frames);
                self.voices[kept] = moved;
                kept = kept + 1;
                assert(self.voices@.subrange(0, kept as int) =~= earlier.push(advanced(v, frames)));
            } else {
                assert(self.voices@.subrange(0, kept as int) =~= earlier);
            }
            i = i + 1;
        }
        self.voices.truncate(kept);
        proof {
            assert(before.subrange(0, n as int) =~= before);
            lemma_block_keeps_wf(old(self)@, frames);
        }
    }

    /// Takes out the oldest voice known under `serial`, which has run out. A
    /// serial that no voice carries changes nothing.
    pub fn voice_finished(&mut self, serial: u64)
        requires
            old(self).wf(),
        ensures
            final(self).wf(),
            final(self)@ == old(self)@.retire(serial),
    {
        let n: usize = self.voices.len();
        let mut i: usize = 0;
        while i < n
            invariant
                n == self.voices.len(),
                i <= n,
                *self == *old(self),
                old(self).wf(),
                forall|j: int| 0 <= j < i ==> (#[trigger] self.voices@[j]).serial != serial,
            decreases n - i,
        {
            if self.voices[i].serial == serial {
                proof {
                    assert forall|j: int| 0 <= j < i implies !(has_serial(serial))(
                        #[trigger] self.voices@[j],
                    ) by {
                        assert(self.voices@[j].serial != serial);
                    }
                    lemma_oldest_is(self.voices@, has_serial(serial), i as int);
                }
                self.voices.remove(i);
                return ;
            }
            i = i + 1;
        }
        proof {
            assert forall|j: int| 0 <= j < self.voices@.len() implies !(has_serial(serial))(
                #[trigger] self.voices@[j],
            ) by {
                assert(self.voices@[j].serial != serial);
            }
            lemma_oldest_none(self.voices@, has_serial(serial));
        }
    }

    /// Ends the release of the oldest voice known under `serial`, whose
    /// level has fallen below the floor. The voice leaves with the next
    /// block. A serial that no voice carries changes nothing, and neither
    /// does a voice that has not been released.
    pub fn floor_reached(&mut self, serial: u64)
        requires
            old(self).wf(),
        ensures
            final(self).wf(),
            final(self)@ == old(self)@.floor_reached(serial),
    {
        let n: usize = self.voices.len();
        let mut i: usize = 0;
        while i < n
            invariant
                n == self.voices.len(),
                i <= n,
                *self == *old(self),
                old(self).wf(),
                forall|j: int| 0 <= j < i ==> (#[trigger] self.voices@[j]).serial != serial,
            decreases n - i,
        {
            if self.voices[i].serial == serial {
                proof {
                    assert forall|j: int| 0 <= j < i implies !(has_serial(serial))(
                        #[trigger] self.voices@[j],
                    ) by {
                        assert(self.voices@[j].serial != serial);
                    }
                    lemma_oldest_is(self.voices@, has_serial(serial), i as int);
                }
                self.voices[i].envelope.floor_reached();
                assert(self.voices@ =~= old(self).voices@.update(
                    i as int,
                    faded(old(self).voices@[i as int]),
                ));
                return ;
            }
            i = i + 1;
        }
        proof {
            assert forall|j: int| 0 <= j < self.voices@.len() implies !(has_serial(serial))(
                #[trigger] self.voices@[j],
            ) by {
                assert(self.voices@[j].serial != serial);
            }
            lemma_oldest_none(self.voices@, has_serial(serial));
        }
    }

    /// Whether any voice is in the table, released or not.
    pub fn is_playing(&self) -> (b: bool)
        ensures
            b == self@.is_playing(),
    {
        self.voices.len() > 0
    }

    /// Whether a voice of `note` sounds that has not been released.
    pub fn is_playing_note(&self, note: u8) -> (b: bool)
        ensures
            b == self@.is_playing_note(note),
    {
        let n: usize = self.voices.len();
        let mut i: usize = 0;
        while i < n
            invariant
                n == self.voices.len(),
                i <= n,
                forall|j: int| 0 <= j < i ==> !is_held(#[trigger] self.voices@[j], note),
            decreases n - i,
        {
            if self.voices[i].note == note && self.voices[i].envelope.is_held() {
                assert(is_held(self@.voices[i as int], note));
                return true;
            }
            i = i + 1;
        }
        false
    }

    /// Whether a released voice of `note` is still in the table.
    pub fn is_releasing_note(&self, note: u8) -> (b: bool)
        ensures
            b == self@.is_releasing_note(note),
    {
        let n: usize = self.voices.len();
        let mut i: usize = 0;
        while i < n
            invariant
                n == self.voices.len(),
                i <= n,
                forall|j: int|
                    0 <= j < i ==> !((#[trigger] self.voices@[j]).note == note
                        && self.voices@[j].spec_releasing()),
            decreases n - i,
        {
            if self.voices[i].note == note && self.voices[i].releasing() {
                assert(self@.voices[i as int].note == note
                    && self@.voices[i as int].spec_releasing());
                return true;
            }
            i = i + 1;
        }
        false
    }

    /// The number of voices that sound.
    pub fn voice_count(&self) -> (n: usize)
        ensures
            n == self@.voices.len(),
    {
        self.voices.len()
    }

    /// The voice at place `i`, counted from the oldest.
    pub fn voice(&self, i: usize) -> (v: Option<Voice>)
        ensures
            v == if i < self@.voices.len() {
                Some(self@.voices[i as int])
            } else {
                None::<Voice>
            },
    {
        if i < self.voices.len() {
            Some(self.voices[i])
        } else {
            None
        }
    }

    /// The polyphony of the table.
    pub fn max_voices(&self) -> (n: usize)
        ensures
            n == self@.max_voices,
    {
        self.max_voices
    }
}

} // verus!
