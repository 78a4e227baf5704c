//! The engine: the regions of an instrument, in the order of its definition.
//!
//! The engine hands every MIDI message to every region, together with one
//! random draw per message, and then lets the groups of the regions that
//! fired silence the others.

use crate::envelope::StageLengths;
use crate::midi::MidiMessage;
use crate::range::RANDOM_UNIT;
use crate::region::{Region, RegionView};
use crate::region_data::RegionData;
use crate::voice::{is_held, release_all};
use vstd::prelude::*;

verus! {

/// Why an instrument could not be loaded. Each case carries what the part
/// that failed had to say.
#[derive(Debug)]
pub enum EngineError {
    /// The instrument definition could not be understood.
    ParserError(String),
    /// A sample file could not be opened.
    SndFileError(String),
    /// The instrument definition could not be read.
    IOError(String),
    /// A sample file could not be decoded; the payload names the file.
    UnspecifiedSndFileError(String),
}

impl EngineError {
    /// What the error says, as a sequence of characters.
    pub open spec fn spec_message(self) -> Seq<char> {
        match self {
            EngineError::ParserError(said) => said@,
            EngineError::SndFileError(said) => said@,
            EngineError::IOError(said) => said@,
            EngineError::UnspecifiedSndFileError(file) =>
                "Unspecified error from sndfile while reading "@ + file@,
        }
    }

    /// What the error says: the words of the part that failed, or, for a
    /// sample that could not be decoded, a sentence that names the file.
    pub fn message(&self) -> (said: String)
        ensures
            said@ == self.spec_message(),
    {
        match self {
            EngineError::ParserError(said) => said.clone(),
            EngineError::SndFileError(said) => said.clone(),
            EngineError::IOError(said) => said.clone(),
            EngineError::UnspecifiedSndFileError(file) => {
                let start = String::from_str("Unspecified error from sndfile while reading ");
                start.concat(file.as_str())
            },
        }
    }
}

/// Region `r` after a message has been handed to it: where it fired it has
/// been asked for its group, which shields it for the rest of the message.
pub open spec fn dispatched(r: RegionView, msg: MidiMessage, draw: u32) -> RegionView {
    let passed = r.pass_midi_msg(msg, draw);
    if passed.1 {
        passed.0.group()
    } else {
        passed.0
    }
}

/// Region `r` fires on the message and belongs to group `g`.
pub open spec fn fires_group(r: RegionView, msg: MidiMessage, draw: u32, g: u32) -> bool {
    g != 0 && r.params.group == g && r.pass_midi_msg(msg, draw).1
}

/// The message sets off group `g`: a region of that group fires on it.
pub open spec fn group_fired(regions: Seq<RegionView>, msg: MidiMessage, draw: u32, g: u32) -> bool {
    exists|j: int| 0 <= j < regions.len() && fires_group(#[trigger] regions[j], msg, draw, g)
}

/// The message silences region `i`: the region did not fire on it, and the
/// message sets off the region's own group or the one that switches it off.
pub open spec fn choked(regions: Seq<RegionView>, msg: MidiMessage, draw: u32, i: int) -> bool {
    let d = dispatched(regions[i], msg, draw);
    !d.immune && (group_fired(regions, msg, draw, d.params.group) || group_fired(
        regions,
        msg,
        draw,
        d.params.off_by,
    ))
}

/// The regions after a message: each has answered it, and those that the
/// message silences have released their voices.
pub open spec fn after_midi_event(regions: Seq<RegionView>, msg: MidiMessage, draw: u32) -> Seq<
    RegionView,
> {
    Seq::new(
        regions.len(),
        |i: int|
            if choked(regions, msg, draw, i) {
                dispatched(regions[i], msg, draw).all_notes_off()
            } else {
                dispatched(regions[i], msg, draw)
            },
    )
}

/// The regions after a block of `frames` frames.
pub open spec fn after_frames(regions: Seq<RegionView>, frames: usize) -> Seq<RegionView> {
    Seq::new(regions.len(), |i: int| regions[i].process(frames))
}

/// The regions after a block rendered into two buffers of the given lengths.
/// Nothing is rendered where either buffer is empty.
pub open spec fn after_process(regions: Seq<RegionView>, left: usize, right: usize) -> Seq<
    RegionView,
> {
    if left == 0 || right == 0 {
        regions
    } else {
        after_frames(regions, left)
    }
}

/// The regions after one block for each length in `blocks`, in order.
pub open spec fn after_blocks(regions: Seq<RegionView>, blocks: Seq<usize>) -> Seq<RegionView>
    decreases blocks.len(),
{
    if blocks.len() == 0 {
        regions
    } else {
        after_process(after_blocks(regions, blocks.drop_last()), blocks.last(), blocks.last())
    }
}

/// The sum of the lengths in `blocks`.
pub open spec fn total_frames(blocks: Seq<usize>) -> int
    decreases blocks.len(),
{
    if blocks.len() == 0 {
        0
    } else {
        total_frames(blocks.drop_last()) + blocks.last()
    }
}

/// The regions after every voice has been released.
pub open spec fn after_fadeout(regions: Seq<RegionView>) -> Seq<RegionView> {
    Seq::new(regions.len(), |i: int| regions[i].all_notes_off())
}

/// No voice sounds in any region.
pub open spec fn all_silent(regions: Seq<RegionView>) -> bool {
    forall|i: int| 0 <= i < regions.len() ==> !(#[trigger] regions[i]).sample.is_playing()
}

/// The regions after the voice known under `serial` has run out in region
/// `region`. A region that does not exist changes nothing.
pub open spec fn after_voice_finished(regions: Seq<RegionView>, region: usize, serial: u64) -> Seq<
    RegionView,
> {
    if region < regions.len() {
        regions.update(region as int, regions[region as int].voice_finished(serial))
    } else {
        regions
    }
}

/// The regions after the release of the voice known under `serial` has
/// fallen below the floor in region `region`. A region that does not exist
/// changes nothing.
pub open spec fn after_floor_reached(regions: Seq<RegionView>, region: usize, serial: u64) -> Seq<
    RegionView,
> {
    if region < regions.len() {
        regions.update(region as int, regions[region as int].floor_reached(serial))
    } else {
        regions
    }
}

/// The regions made of a list of settings.
pub open spec fn initial_regions(params: Seq<(RegionData, StageLengths)>, max_voices: usize) -> Seq<
    RegionView,
> {
    Seq::new(params.len(), |i: int| RegionView::initial(params[i].0@, params[i].1, max_voices))
}

/// Answering a message leaves the settings of a region as they were, and
/// keeps the region well formed.
pub proof fn lemma_dispatch_keeps(r: RegionView, msg: MidiMessage, draw: u32)
    ensures
        r.pass_midi_msg(msg, draw).0.params == r.params,
        dispatched(r, msg, draw).params == r.params,
        dispatched(r, msg, draw).immune == r.pass_midi_msg(msg, draw).1,
{
}

/// Releasing every voice a second time changes nothing, and releasing them
/// touches neither the settings nor the shield of a region.
pub proof fn lemma_silence_once(r: RegionView)
    ensures
        r.all_notes_off().all_notes_off() == r.all_notes_off(),
        r.all_notes_off().params == r.params,
        r.all_notes_off().immune == r.immune,
{
    assert(release_all(release_all(r.sample.voices)) =~= release_all(r.sample.voices));
}

/// A random word from the thread's generator, `rand::random::<u32>()`.
/// Nothing is claimed of the word.
#[verifier::external_body]
fn random_word() -> (word: u32) {
    rand::random::<u32>()
}

/// The engine of one instrument.
pub struct Engine {
    regions: Vec<Region>,
    fired_groups: Vec<u32>,
}

impl View for Engine {
    type V = Seq<RegionView>;

    closed spec fn view(&self) -> Seq<RegionView> {
        Seq::new(self.regions@.len(), |i: int| self.regions@[i]@)
    }
}

impl Engine {
    /// Every region is well formed.
    pub open spec fn wf(&self) -> bool {
        forall|i: int| 0 <= i < self@.len() ==> (#[trigger] self@[i]).wf()
    }

    /// A well-formed engine holds well-formed regions.
    proof fn lemma_regions_wf(&self)
        requires
            self.wf(),
        ensures
            forall|j: int| 0 <= j < self.regions@.len() ==> (#[trigger] self.regions@[j]).wf(),
    {
        assert forall|j: int| 0 <= j < self.regions@.len() implies (
        #[trigger] self.regions@[j]).wf() by {
            assert(self@[j].wf());
        }
    }

    /// The engine of an instrument whose definition has been loaded, or the
    /// error that loading it gave.
    pub fn new(
        loaded: Result<Vec<(RegionData, StageLengths)>, EngineError>,
        max_voices: usize,
    ) -> (r: Result<Engine, EngineError>)
        ensures
            match (loaded, r) {
                (Ok(params), Ok(engine)) => engine.wf() && engine@ == initial_regions(
                    params@,
                    max_voices,
                ),
                (Err(e), Err(f)) => e == f,
                _ => false,
            },
    {
        match loaded {
            Ok(params) => Ok(Engine::from_region_array(params, max_voices)),
            Err(e) => Err(e),
        }
    }

    /// An engine with one silent region for each of the settings, in their
    /// order, each with room for `max_voices` voices. With the settings of a
    /// region come the stage lengths of its envelope.
    pub fn from_region_array(params: Vec<(RegionData, StageLengths)>, max_voices: usize) -> (engine:
        Engine)
        ensures
            engine.wf(),
            engine@ == initial_regions(params@, max_voices),
    {
        let n: usize = params.len();
        let mut regions: Vec<Region> = Vec::with_capacity(n);
        for rd in it: params.into_iter()
            invariant
                it.seq() == params@,
                regions@.len() == it.index(),
                forall|j: int|
                    0 <= j < regions@.len() ==> (#[trigger] regions@[j]).wf() && regions@[j]@
                        == RegionView::initial(params@[j].0@, params@[j].1, max_voices),
        {
            regions.push(Region::new(rd.0, rd.1, max_voices));
        }
        let engine = Engine { regions, fired_groups: Vec::with_capacity(n) };
        assert(engine@ =~= initial_regions(params@, max_voices));
        engine
    }

    /// An engine without regions.
    pub fn dummy(max_voices: usize) -> (engine: Engine)
        ensures
            engine.wf(),
            engine@ == Seq::<RegionView>::empty(),
    {
        let engine = Engine::from_region_array(Vec::new(), max_voices);
        assert(engine@ =~= Seq::<RegionView>::empty());
        engine
    }

    /// Releases every voice of every region.
    pub fn fadeout(&mut self)
        requires
            old(self).wf(),
        ensures
            final(self).wf(),
            final(self)@ == after_fadeout(old(self)@),
            forall|i: int, note: u8|
                0 <= i < final(self)@.len() ==> !(#[trigger] final(self)@[i].sample.is_playing_note(
                    note,
                )),
    {
        proof {
            self.lemma_regions_wf();
        }
        let n: usize = self.regions.len();
        let mut i: usize = 0;
        while i < n
            invariant
                n == self.regions.len(),
                n == old(self).regions.len(),
                i <= n,
                forall|j: int|
                    0 <= j < i ==> (#[trigger] self.regions@[j]).wf() && self.regions@[j]@ == old(
                        self,
                    ).regions@[j]@.all_notes_off(),
                forall|j: int|
                    i <= j < n ==> (#[trigger] self.regions@[j]).wf() && self.regions@[j]@ == old(
                        self,
                    ).regions@[j]@,
            decreases n - i,
        {
            self.regions[i].all_notes_off();
            i = i + 1;
        }
        assert(self@ =~= after_fadeout(old(self)@));
        assert forall|k: int, note: u8| 0 <= k < self@.len() implies !(
        #[trigger] self@[k].sample.is_playing_note(note)) by {
            let voices = self@[k].sample.voices;
            assert(voices == release_all(old(self)@[k].sample.voices));
            assert forall|m: int| 0 <= m < voices.len() implies !is_held(
                #[trigger] voices[m],
                note,
            ) by {
                assert(!voices[m].envelope.held());
            }
        }
    }

    /// Whether every voice of every region has left its table.
    pub fn fadeout_finished(&self) -> (b: bool)
        ensures
            b == all_silent(self@),
    {
        let n: usize = self.regions.len();
        let mut i: usize = 0;
        while i < n
            invariant
                n == self.regions.len(),
                i <= n,
                forall|j: int| 0 <= j < i ==> !(#[trigger] self@[j]).sample.is_playing(),
            decreases n - i,
        {
            if self.regions[i].sample().is_playing() {
                assert(self@[i as int].sample.is_playing());
                return false;
            }
            i = i + 1;
        }
        true
    }

    /// Hands a message to every region, with a fresh random draw, and lets
    /// the groups of the regions that fired silence the others. The draw is
    /// the upper twenty-four bits of a random word.
    pub fn midi_event(&mut self, midi_msg: &MidiMessage)
        requires
            old(self).wf(),
        ensures
            final(self).wf(),
            exists|draw: u32|
                draw < RANDOM_UNIT && final(self)@ == #[trigger] after_midi_event(
                    old(self)@,
                    *midi_msg,
                    draw,
                ),
    {
        let word: u32 = random_word();
        let draw: u32 = word >> 8;
        assert(word >> 8 < 0x0100_0000u32) by (bit_vector);
        self.midi_event_with_draw(midi_msg, draw);
    }

    /// Hands a message to every region, with the draw made for it, and lets
    /// the groups of the regions that fired silence the others.
    pub fn midi_event_with_draw(&mut self, midi_msg: &MidiMessage, draw: u32)
        requires
            old(self).wf(),
        ensures
            final(self).wf(),
            final(self)@ == after_midi_event(old(self)@, *midi_msg, draw),
    {
        proof {
            self.lemma_regions_wf();
        }
        let ghost before = self@;
        let ghost msg = *midi_msg;
        self.fired_groups.clear();
        let n: usize = self.regions.len();
        let mut i: usize = 0;
        while i < n
            invariant
                n == self.regions.len(),
                n == before.len(),
                i <= n,
                msg == *midi_msg,
                forall|j: int|
                    0 <= j < i ==> (#[trigger] self.regions@[j]).wf() && self.regions@[j]@
                        == dispatched(before[j], msg, draw),
                forall|j: int|
                    i <= j < n ==> (#[trigger] self.regions@[j]).wf() && self.regions@[j]@
                        == before[j],
                forall|g: u32|
                    self.fired_groups@.contains(g) <==> exists|j: int|
                        0 <= j < i && fires_group(#[trigger] before[j], msg, draw, g),
            decreases n - i,
        {
            let ghost groups_before = self.fired_groups@;
            proof {
                lemma_dispatch_keeps(before[i as int], msg, draw);
            }
            let fired: bool = self.regions[i].pass_midi_msg(midi_msg, draw);
            let mut pushed: bool = false;
            if fired {
                let group: u32 = self.regions[i].group();
                if group > 0 {
                    self.fired_groups.push(group);
                    pushed = true;
                }
            }
            proof {
                let own = before[i as int].params.group;
                assert(pushed == fires_group(before[i as int], msg, draw, own));
                assert forall|g: u32|
                    self.fired_groups@.contains(g) <==> exists|j: int|
                        0 <= j < i + 1 && fires_group(#[trigger] before[j], msg, draw, g) by {
                    if self.fired_groups@.contains(g) {
                        let k = choose|k: int|
                            0 <= k < self.fired_groups@.len() && self.fired_groups@[k] == g;
                        if k < groups_before.len() {
                            assert(groups_before[k] == g);
                            assert(groups_before.contains(g));
                            let j = choose|j: int|
                                0 <= j < i && fires_group(#[trigger] before[j], msg, draw, g);
                            assert(0 <= j < i + 1 && fires_group(before[j], msg, draw, g));
                        } else {
                            assert(pushed && g == own);
                            assert(0 <= i < i + 1 && fires_group(before[i as int], msg, draw, g));
                        }
                    }
                    if exists|j: int|
                        0 <= j < i + 1 && fires_group(#[trigger] before[j], msg, draw, g) {
                        let j = choose|j: int|
                            0 <= j < i + 1 && fires_group(#[trigger] before[j], msg, draw, g);
                        if j < i {
                            assert(groups_before.contains(g));
                            let k = choose|k: int|
                                0 <= k < groups_before.len() && groups_before[k] == g;
                            assert(self.fired_groups@[k] == g);
                        } else {
                            assert(pushed && g == own);
                            assert(self.fired_groups@[self.fired_groups@.len() - 1] == g);
                        }
                    }
                }
            }
            i = i + 1;
        }
        proof {
            assert forall|g: u32|
                self.fired_groups@.contains(g) <==> group_fired(before, msg, draw, g) by {
                if group_fired(before, msg, draw, g) {
                    let j = choose|j: int|
                        0 <= j < before.len() && fires_group(#[trigger] before[j], msg, draw, g);
                    assert(0 <= j < i && fires_group(before[j], msg, draw, g));
                }
            }
        }
        let m: usize = self.fired_groups.len();
        let mut i: usize = 0;
        while i < n
            invariant
                n == self.regions.len(),
                n == before.len(),
                m == self.fired_groups.len(),
                i <= n,
                forall|j: int|
                    0 <= j < i ==> (#[trigger] self.regions@[j]).wf() && self.regions@[j]@
                        == after_midi_event(before, msg, draw)[j],
                forall|j: int|
                    i <= j < n ==> (#[trigger] self.regions@[j]).wf() && self.regions@[j]@
                        == dispatched(before[j], msg, draw),
                forall|g: u32|
                    self.fired_groups@.contains(g) <==> group_fired(before, msg, draw, g),
            decreases n - i,
        {
            let ghost d = dispatched(before[i as int], msg, draw);
            let ghost groups = self.fired_groups@;
            proof {
                lemma_dispatch_keeps(before[i as int], msg, draw);
            }
            let mut k: usize = 0;
            while k < m
                invariant
                    n == self.regions.len(),
                    n == before.len(),
                    m == self.fired_groups.len(),
                    groups == self.fired_groups@,
                    i < n,
                    k <= m,
                    d == dispatched(before[i as int], msg, draw),
                    forall|j: int|
                        0 <= j < i ==> (#[trigger] self.regions@[j]).wf() && self.regions@[j]@
                            == after_midi_event(before, msg, draw)[j],
                    forall|j: int|
                        i < j < n ==> (#[trigger] self.regions@[j]).wf() && self.regions@[j]@
                            == dispatched(before[j], msg, draw),
                    self.regions@[i as int].wf(),
                    self.regions@[i as int]@ == if exists|q: int|
                        0 <= q < k && d.silenced_by(#[trigger] groups[q]) {
                        d.all_notes_off()
                    } else {
                        d
                    },
                decreases m - k,
            {
                let g: u32 = self.fired_groups[k];
                proof {
                    lemma_silence_once(d);
                }
                self.regions[i].group_activated(g);
                proof {
                    if exists|q: int| 0 <= q < k && d.silenced_by(#[trigger] groups[q]) {
                        let q = choose|q: int| 0 <= q < k && d.silenced_by(#[trigger] groups[q]);
                        assert(0 <= q < k + 1 && d.silenced_by(groups[q]));
                    } else if d.silenced_by(g) {
                        assert(0 <= k < k + 1 && d.silenced_by(groups[k as int]));
                    } else {
                        assert forall|q: int| 0 <= q < k + 1 implies !d.silenced_by(
                            #[trigger] groups[q],
                        ) by {
                            if q == k {
                            }
                        }
                    }
                }
                k = k + 1;
            }
            proof {
                let silenced = exists|q: int| 0 <= q < m && d.silenced_by(#[trigger] groups[q]);
                if silenced {
                    let q = choose|q: int| 0 <= q < m && d.silenced_by(#[trigger] groups[q]);
                    assert(groups.contains(groups[q]));
                    assert(group_fired(before, msg, draw, groups[q]));
                    assert(choked(before, msg, draw, i as int));
                }
                if choked(before, msg, draw, i as int) {
                    let g = if group_fired(before, msg, draw, d.params.group) {
                        d.params.group
                    } else {
                        d.params.off_by
                    };
                    assert(group_fired(before, msg, draw, g));
                    assert(groups.contains(g));
                    let q = choose|q: int| 0 <= q < groups.len() && groups[q] == g;
                    let j = choose|j: int|
                        0 <= j < before.len() && fires_group(#[trigger] before[j], msg, draw, g);
                    assert(g != 0);
                    assert(d.silenced_by(groups[q]));
                    assert(silenced);
                }
            }
            i = i + 1;
        }
        assert(self@ =~= after_midi_event(before, msg, draw));
        assert forall|j: int| 0 <= j < self@.len() implies (#[trigger] self@[j]).wf() by {
            assert(self.regions@[j].wf());
        }
    }

    /// Counts a block rendered into two buffers of the given lengths towards
    /// the time since each region last fired. Nothing happens where either
    /// buffer is empty.
    pub fn process(&mut self, left_frames: usize, right_frames: usize)
        requires
            old(self).wf(),
        ensures
            final(self).wf(),
            final(self)@ == after_process(old(self)@, left_frames, right_frames),
    {
        if left_frames == 0 || right_frames == 0 {
            return ;
        }
        proof {
            self.lemma_regions_wf();
        }
        let n: usize = self.regions.len();
        let mut i: usize = 0;
        while i < n
            invariant
                n == self.regions.len(),
                n == old(self).regions.len(),
                i <= n,
                forall|j: int|
                    0 <= j < i ==> (#[trigger] self.regions@[j]).wf() && self.regions@[j]@ == old(
                        self,
                    ).regions@[j]@.process(left_frames),
                forall|j: int|
                    i <= j < n ==> (#[trigger] self.regions@[j]).wf() && self.regions@[j]@ == old(
                        self,
                    ).regions@[j]@,
            decreases n - i,
        {
            self.regions[i].process(left_frames);
            i = i + 1;
        }
        assert(self@ =~= after_frames(old(self)@, left_frames));
        assert forall|j: int| 0 <= j < self@.len() implies (#[trigger] self@[j]).wf() by {
            assert(self.regions@[j].wf());
        }
    }

    /// Takes out the voice that region `region` knows under `serial`, which
    /// has run out. A region that does not exist changes nothing.
    pub fn voice_finished(&mut self, region: usize, serial: u64)
        requires
            old(self).wf(),
        ensures
            final(self).wf(),
            final(self)@ == after_voice_finished(old(self)@, region, serial),
    {
        proof {
            self.lemma_regions_wf();
        }
        if region < self.regions.len() {
            self.regions[region].voice_finished(serial);
            assert(self@ =~= after_voice_finished(old(self)@, region, serial));
            assert forall|j: int| 0 <= j < self@.len() implies (#[trigger] self@[j]).wf() by {
                assert(self.regions@[j].wf());
            }
        }
    }

    /// Ends the release of the voice that region `region` knows under
    /// `serial`, whose level has fallen below the floor. A region that does
    /// not exist changes nothing.
    pub fn floor_reached(&mut self, region: usize, serial: u64)
        requires
            old(self).wf(),
        ensures
            final(self).wf(),
            final(self)@ == after_floor_reached(old(self)@, region, serial),
    {
        proof {
            self.lemma_regions_wf();
        }
        if region < self.regions.len() {
            self.regions[region].floor_reached(serial);
            assert(self@ =~= after_floor_reached(old(self)@, region, serial));
            assert forall|j: int| 0 <= j < self@.len() implies (#[trigger] self@[j]).wf() by {
                assert(self.regions@[j].wf());
            }
        }
    }

    /// The number of regions.
    pub fn regions_len(&self) -> (n: usize)
        ensures
            n == self@.len(),
    {
        self.regions.len()
    }

    /// Region `i`, for reading.
    pub fn region(&self, i: usize) -> (r: &Region)
        requires
            i < self@.len(),
        ensures
            r@ == self@[i as int],
    {
        &self.regions[i]
    }

    /// Region `i`, for handing it a message of its own.
    pub fn region_mut(&mut self, i: usize) -> (r: &mut Region)
        requires
            i < old(self)@.len(),
        ensures
            r@ == old(self)@[i as int],
            final(self)@ == old(self)@.update(i as int, final(r)@),
    {
        &mut self.regions[i]
    }
}

} // verus!
