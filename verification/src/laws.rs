//! What holds of the engine across calls.

use crate::engine::{
    after_blocks, after_fadeout, after_floor_reached, after_frames, after_midi_event,
    after_process, after_voice_finished, all_silent, total_frames,
};
use crate::envelope::{lemma_advance_adds, lemma_release_ends};
use crate::midi::MidiMessage;
use crate::region::{frames_after, RegionView};
use crate::voice::{
    advanced, after_block, has_serial, lemma_after_block_empty, lemma_after_block_push,
    lemma_oldest_is, released, still_sounds, SampleVoiceView, Voice,
};
use vstd::prelude::*;

verus! {

/// The voices that make sound: those whose envelope has not fallen idle.
pub open spec fn sounding(voices: Seq<Voice>) -> Seq<Voice> {
    voices.filter(still_sounds())
}

/// The region as it can be heard: with the voices that make sound. A voice
/// that has fallen idle stays in the table until the next block begins, and
/// makes no difference to what is rendered.
pub open spec fn audible(r: RegionView) -> RegionView {
    RegionView { sample: SampleVoiceView { voices: sounding(r.sample.voices), ..r.sample }, ..r }
}

/// Every region as it can be heard.
pub open spec fn audible_all(regions: Seq<RegionView>) -> Seq<RegionView> {
    Seq::new(regions.len(), |i: int| audible(regions[i]))
}

/// The voice table after its `n` oldest voices have been reported as run out,
/// one after the other.
pub open spec fn drained(s: SampleVoiceView, n: nat) -> SampleVoiceView
    decreases n,
{
    if n == 0 || s.voices.len() == 0 {
        s
    } else {
        drained(s.retire(s.voices[0].serial), (n - 1) as nat)
    }
}

/// The sounding voices of a table with one more voice at its end.
pub proof fn lemma_sounding_push(voices: Seq<Voice>, v: Voice)
    ensures
        sounding(voices.push(v)) == if v.envelope.sounds() {
            sounding(voices).push(v)
        } else {
            sounding(voices)
        },
{
    reveal(Seq::filter);
    assert(voices.push(v).drop_last() =~= voices);
}

/// A block treats a table as it treats its sounding voices.
pub proof fn lemma_block_of_sounding(voices: Seq<Voice>, frames: usize)
    ensures
        after_block(sounding(voices), frames) == after_block(voices, frames),
    decreases voices.len(),
{
    if voices.len() == 0 {
        reveal(Seq::filter);
    } else {
        let init = voices.drop_last();
        let v = voices.last();
        assert(voices =~= init.push(v));
        lemma_block_of_sounding(init, frames);
        lemma_sounding_push(init, v);
        lemma_after_block_push(init, v, frames);
        if v.envelope.sounds() {
            lemma_after_block_push(sounding(init), v, frames);
        }
    }
}

/// An envelope that has fallen idle before a block stays idle through it.
pub proof fn lemma_idle_stays_idle(v: Voice, frames: usize)
    requires
        !v.envelope.sounds(),
    ensures
        !advanced(v, frames).envelope.sounds(),
{
}

/// Two blocks in a row leave the same sounding voices as one block of their
/// joint length.
pub proof fn lemma_two_blocks(voices: Seq<Voice>, a: usize, b: usize)
    requires
        a + b <= usize::MAX,
    ensures
        sounding(after_block(after_block(voices, a), b)) == sounding(
            after_block(voices, (a + b) as usize),
        ),
    decreases voices.len(),
{
    let joint = (a + b) as usize;
    if voices.len() == 0 {
        assert(voices =~= Seq::<Voice>::empty());
        lemma_after_block_empty(a);
        lemma_after_block_empty(b);
        lemma_after_block_empty(joint);
    } else {
        let init = voices.drop_last();
        let v = voices.last();
        assert(voices =~= init.push(v));
        lemma_two_blocks(init, a, b);
        lemma_after_block_push(init, v, a);
        lemma_after_block_push(init, v, joint);
        if v.envelope.sounds() {
            let once = advanced(v, a);
            lemma_after_block_push(after_block(init, a), once, b);
            lemma_advance_adds(v.envelope, a, b);
            assert(advanced(once, b) == advanced(v, joint));
            lemma_sounding_push(after_block(init, joint), advanced(v, joint));
            if once.envelope.sounds() {
                lemma_sounding_push(after_block(after_block(init, a), b), advanced(once, b));
            } else {
                lemma_idle_stays_idle(once, b);
            }
        }
    }
}

/// Regions that sound alike are alike after a block.
pub proof fn lemma_block_hears_no_idle_voice(r: RegionView, s: RegionView, frames: usize)
    requires
        audible(r) == audible(s),
    ensures
        r.process(frames) == s.process(frames),
{
    lemma_block_of_sounding(r.sample.voices, frames);
    lemma_block_of_sounding(s.sample.voices, frames);
    assert(sounding(r.sample.voices) == audible(r).sample.voices);
    assert(sounding(s.sample.voices) == audible(s).sample.voices);
    assert(r.sample == (SampleVoiceView { voices: r.sample.voices, ..audible(r).sample }));
    assert(s.sample == (SampleVoiceView { voices: s.sample.voices, ..audible(s).sample }));
    assert(r == (RegionView { sample: r.sample, ..audible(r) }));
    assert(s == (RegionView { sample: s.sample, ..audible(s) }));
}

/// A region sounds the same after two blocks in a row as after one block of
/// their joint length.
pub proof fn lemma_region_two_blocks(r: RegionView, a: usize, b: usize)
    requires
        a + b <= usize::MAX,
    ensures
        audible(r.process(a).process(b)) == audible(r.process((a + b) as usize)),
{
    lemma_two_blocks(r.sample.voices, a, b);
    assert(frames_after(frames_after(r.frames_since_note_on, a), b) == frames_after(
        r.frames_since_note_on,
        (a + b) as usize,
    ));
}

/// The sum of block lengths is not negative.
pub proof fn lemma_total_frames_nonnegative(blocks: Seq<usize>)
    ensures
        total_frames(blocks) >= 0,
    decreases blocks.len(),
{
    if blocks.len() > 0 {
        lemma_total_frames_nonnegative(blocks.drop_last());
    }
}

/// Block-size independence: rendering a stretch of frames in blocks of any
/// lengths, with no message in between, leaves the regions sounding as
/// rendering it in one block does.
pub proof fn lemma_block_size_independence(regions: Seq<RegionView>, blocks: Seq<usize>)
    requires
        total_frames(blocks) <= usize::MAX,
    ensures
        after_blocks(regions, blocks).len() == regions.len(),
        audible_all(after_blocks(regions, blocks)) == audible_all(
            after_process(regions, total_frames(blocks) as usize, total_frames(blocks) as usize),
        ),
    decreases blocks.len(),
{
    if blocks.len() > 0 {
        let init = blocks.drop_last();
        let last = blocks.last();
        lemma_total_frames_nonnegative(init);
        lemma_block_size_independence(regions, init);
        let sum = total_frames(init) as usize;
        let joint = total_frames(blocks) as usize;
        assert(joint == sum + last);
        let parts = after_blocks(regions, init);
        let whole = after_process(regions, sum, sum);
        if last != 0 {
            assert forall|i: int| 0 <= i < regions.len() implies audible(
                after_frames(parts, last)[i],
            ) == audible(after_frames(regions, joint)[i]) by {
                assert(audible_all(parts)[i] == audible_all(whole)[i]);
                lemma_block_hears_no_idle_voice(parts[i], whole[i], last);
                if sum != 0 {
                    lemma_region_two_blocks(regions[i], sum, last);
                }
            }
            assert(audible_all(after_frames(parts, last)) =~= audible_all(
                after_frames(regions, joint),
            ));
        }
    }
}

/// After a block no shorter than its release, a released voice has fallen
/// idle, and so has one that was idle before.
pub proof fn lemma_release_runs_out(v: Voice, frames: usize)
    requires
        !v.envelope.held(),
        frames >= v.envelope.lengths.release,
    ensures
        !advanced(v, frames).envelope.held(),
        !advanced(v, frames).envelope.sounds(),
{
    if v.envelope.phase is Released {
        lemma_release_ends(v.envelope, frames);
    }
}

/// A block whose length covers the release leaves only idle voices, if the
/// notes of all voices were off before.
pub proof fn lemma_block_ends_releases(voices: Seq<Voice>, frames: usize)
    requires
        forall|i: int|
            0 <= i < voices.len() ==> !(#[trigger] voices[i]).envelope.held()
                && voices[i].envelope.lengths.release <= frames,
    ensures
        sounding(after_block(voices, frames)) == Seq::<Voice>::empty(),
    decreases voices.len(),
{
    if voices.len() == 0 {
        assert(voices =~= Seq::<Voice>::empty());
        lemma_after_block_empty(frames);
        reveal(Seq::filter);
    } else {
        let init = voices.drop_last();
        let v = voices.last();
        assert(voices =~= init.push(v));
        assert forall|i: int| 0 <= i < init.len() implies !(#[trigger] init[i]).envelope.held()
            && init[i].envelope.lengths.release <= frames by {
            assert(init[i] == voices[i]);
        }
        lemma_block_ends_releases(init, frames);
        lemma_after_block_push(init, v, frames);
        assert(v == voices[voices.len() - 1]);
        lemma_release_runs_out(v, frames);
        if v.envelope.sounds() {
            lemma_sounding_push(after_block(init, frames), advanced(v, frames));
        }
    }
}

/// After a fade-out the engine is finished within two blocks, if the first
/// of them is at least as long as the longest release: the first block takes
/// every envelope to its end, and the second finds the voices idle and takes
/// them out. No message arrives meanwhile.
pub proof fn lemma_fadeout_finishes(regions: Seq<RegionView>, first: usize, second: usize)
    requires
        forall|i: int| 0 <= i < regions.len() ==> (#[trigger] regions[i]).wf(),
        forall|i: int| 0 <= i < regions.len() ==> (#[trigger] regions[i]).sample.lengths.release
            <= first,
        first > 0,
        second > 0,
    ensures
        all_silent(
            after_process(after_process(after_fadeout(regions), first, first), second, second),
        ),
{
    let faded = after_fadeout(regions);
    let once = after_process(faded, first, first);
    let twice = after_process(once, second, second);
    assert forall|i: int| 0 <= i < twice.len() implies !(#[trigger] twice[i]).sample.is_playing() by {
        let before = regions[i].sample.voices;
        let off = faded[i].sample.voices;
        assert(regions[i].wf());
        assert forall|k: int| 0 <= k < off.len() implies !(#[trigger] off[k]).envelope.held()
            && off[k].envelope.lengths.release <= first by {
            assert(off[k] == released(before[k]));
            assert(before[k].envelope.lengths == regions[i].sample.lengths);
        }
        lemma_block_ends_releases(off, first);
        assert(once[i].sample.voices == after_block(off, first));
        lemma_block_of_sounding(once[i].sample.voices, second);
        lemma_after_block_empty(second);
        assert(twice[i].sample.voices == after_block(once[i].sample.voices, second));
    }
}

/// Reporting the oldest voice as run out takes exactly that voice out.
pub proof fn lemma_retire_oldest(s: SampleVoiceView)
    requires
        s.voices.len() > 0,
    ensures
        s.retire(s.voices[0].serial).voices == s.voices.drop_first(),
{
    lemma_oldest_is(s.voices, has_serial(s.voices[0].serial), 0);
    assert(s.voices.remove(0) =~= s.voices.drop_first());
}

/// A table is silent once as many voices as it holds have been reported as
/// run out, whatever their envelopes say.
pub proof fn lemma_drained_silent(s: SampleVoiceView, n: nat)
    requires
        n >= s.voices.len(),
    ensures
        !drained(s, n).is_playing(),
    decreases n,
{
    if n > 0 && s.voices.len() > 0 {
        lemma_retire_oldest(s);
        lemma_drained_silent(s.retire(s.voices[0].serial), (n - 1) as nat);
    }
}

/// What can happen to an engine.
pub enum Input {
    /// A message arrives; with it comes the draw made for it.
    Message(MidiMessage, u32),
    /// A block is rendered into two buffers of the given lengths.
    Block(usize, usize),
    /// In the region of the given number, the voice known under the given
    /// serial is reported as run out.
    Finished(usize, u64),
    /// In the region of the given number, the release of the voice known
    /// under the given serial is reported to have fallen below the floor.
    Faded(usize, u64),
    /// The engine is told to fade out.
    Fadeout,
}

/// The regions after one input.
pub open spec fn after_input(regions: Seq<RegionView>, input: Input) -> Seq<RegionView> {
    match input {
        Input::Message(msg, draw) => after_midi_event(regions, msg, draw),
        Input::Block(left, right) => after_process(regions, left, right),
        Input::Finished(region, serial) => after_voice_finished(regions, region, serial),
        Input::Faded(region, serial) => after_floor_reached(regions, region, serial),
        Input::Fadeout => after_fadeout(regions),
    }
}

/// The regions after a history of inputs, in their order.
pub open spec fn after_history(regions: Seq<RegionView>, history: Seq<Input>) -> Seq<RegionView>
    decreases history.len(),
{
    if history.len() == 0 {
        regions
    } else {
        after_input(after_history(regions, history.drop_last()), history.last())
    }
}

/// The engine is deterministic: its regions after a history are decided by
/// the regions before and the history, draws included, and a history can be
/// cut anywhere and taken up again from the regions it had reached.
pub proof fn lemma_history_composes(regions: Seq<RegionView>, first: Seq<Input>, second: Seq<Input>)
    ensures
        after_history(regions, first + second) == after_history(
            after_history(regions, first),
            second,
        ),
    decreases second.len(),
{
    if second.len() == 0 {
        assert(first + second =~= first);
    } else {
        lemma_history_composes(regions, first, second.drop_last());
        assert((first + second).drop_last() =~= first + second.drop_last());
        assert((first + second).last() == second.last());
    }
}

} // verus!
