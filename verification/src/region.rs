//! One region of an instrument: the rules by which it answers MIDI messages.
//!
//! A region turns note, pedal and controller messages into calls on its voice
//! table, under the rules of its trigger. It keeps what those rules need: the
//! last key that went down, the keys whose release waits for the sustain
//! pedal, the keys held outside its range, and the time since it last fired.

use crate::envelope::StageLengths;
use crate::midi::{MidiMessage, PEDAL_PUSHED, SUSTAIN_PEDAL};
use crate::note_set::NoteSet;
use crate::range::MIDI_MAX;
use crate::region_data::{RegionData, RegionParams, Trigger};
use crate::voice::{SampleVoice, SampleVoiceView};
use vstd::prelude::*;

verus! {

/// The velocity a voice sounds at: the one played, or its mirror image where
/// velocity tracking is negative.
pub open spec fn mapped_velocity(velocity: u8, inverted: bool) -> u8 {
    if !inverted {
        velocity
    } else if velocity >= MIDI_MAX {
        0
    } else {
        (MIDI_MAX - velocity) as u8
    }
}

/// `frames` more frames on a count that stops at its largest value.
pub open spec fn frames_after(count: u64, frames: usize) -> u64 {
    if count + frames > u64::MAX {
        u64::MAX
    } else {
        (count + frames) as u64
    }
}

/// The state of a region.
pub struct RegionView {
    pub params: RegionParams,
    pub sample: SampleVoiceView,
    /// Key and velocity of the last note-on in range, for a region that
    /// sounds on release.
    pub last_note_on: Option<(u8, u8)>,
    /// The keys that came up while the sustain pedal was down.
    pub notes_for_release_trigger: Set<u8>,
    /// The keys outside the range that are held.
    pub other_notes_on: Set<u8>,
    /// Frames rendered since the region last fired.
    pub frames_since_note_on: u64,
    pub sustain_pedal_pushed: bool,
    /// The region fired on the message at hand, which shields it from the
    /// groups that message sets off.
    pub immune: bool,
}

impl RegionView {
    pub open spec fn wf(self) -> bool {
        self.sample.wf()
    }

    /// A silent region with the given settings, whose voices get envelopes of
    /// the given stage lengths, with room for as many voices as a table grants
    /// when `max_voices` are asked for.
    pub open spec fn initial(params: RegionParams, lengths: StageLengths, max_voices: usize) -> Self {
        RegionView {
            params,
            sample: SampleVoiceView {
                voices: Seq::empty(),
                max_voices: SampleVoice::granted(max_voices),
                next_serial: 0,
                lengths,
            },
            last_note_on: None,
            notes_for_release_trigger: Set::empty(),
            other_notes_on: Set::empty(),
            frames_since_note_on: 0,
            sustain_pedal_pushed: false,
            immune: false,
        }
    }

    /// What a voice records of the time since the region last fired.
    pub open spec fn elapsed(self) -> u64 {
        if self.params.trigger.spec_on_release() {
            self.frames_since_note_on
        } else {
            0
        }
    }

    /// The region fires: a voice starts, and the time since the last firing
    /// starts anew.
    pub open spec fn note_on(self, note: u8, velocity: u8) -> Self {
        RegionView {
            sample: self.sample.note_on(
                note,
                mapped_velocity(velocity, self.params.veltrack_inverted),
                self.elapsed(),
            ),
            frames_since_note_on: 0,
            ..self
        }
    }

    pub open spec fn note_off(self, note: u8) -> Self {
        RegionView { sample: self.sample.note_off(note), ..self }
    }

    pub open spec fn all_notes_off(self) -> Self {
        RegionView { sample: self.sample.all_notes_off(), ..self }
    }

    /// The sustain pedal is reported as pushed or not. When it comes up after
    /// having been down, a region with a release trigger fires with the last
    /// note-on, if there was one; any other region releases the keys that came
    /// up meanwhile. The second part says whether the region fired.
    pub open spec fn sustain_pedal(self, pushed: bool) -> (Self, bool) {
        let flagged = RegionView { sustain_pedal_pushed: pushed, ..self };
        if pushed || !self.sustain_pedal_pushed {
            (flagged, false)
        } else if self.params.trigger == Trigger::Release {
            match self.last_note_on {
                Some((note, velocity)) => (flagged.note_on(note, velocity), true),
                None => (flagged, false),
            }
        } else {
            (
                RegionView {
                    sample: flagged.sample.release_notes(self.notes_for_release_trigger),
                    notes_for_release_trigger: Set::empty(),
                    ..flagged
                },
                false,
            )
        }
    }

    /// A key goes down. The second part says whether the region fired.
    pub open spec fn handle_note_on(self, note: u8, velocity: u8, draw: u32) -> (Self, bool) {
        if !self.params.key_range.spec_covering(note) {
            (RegionView { other_notes_on: self.other_notes_on.insert(note), ..self }, false)
        } else if !self.params.vel_range.spec_covering(velocity) {
            (self, false)
        } else if self.params.trigger.spec_on_release() {
            (
                RegionView {
                    last_note_on: Some((note, velocity)),
                    notes_for_release_trigger: self.notes_for_release_trigger.remove(note),
                    ..self
                },
                false,
            )
        } else if self.params.trigger == Trigger::First && self.other_notes_on != Set::<
            u8,
        >::empty() {
            (self, false)
        } else if self.params.trigger == Trigger::Legato && self.other_notes_on == Set::<
            u8,
        >::empty() {
            (self, false)
        } else if !self.params.random_range.spec_covering(draw) {
            (self, false)
        } else {
            let fired = self.note_on(note, velocity);
            (
                RegionView {
                    notes_for_release_trigger: self.notes_for_release_trigger.remove(note),
                    ..fired
                },
                true,
            )
        }
    }

    /// A key comes up. The second part says whether the region fired.
    pub open spec fn handle_note_off(self, note: u8) -> (Self, bool) {
        if !self.params.key_range.spec_covering(note) {
            (RegionView { other_notes_on: self.other_notes_on.remove(note), ..self }, false)
        } else if self.params.trigger.spec_on_release() {
            match self.last_note_on {
                Some((last, velocity)) => (self.note_on(last, velocity), true),
                None => (self, false),
            }
        } else if !self.sustain_pedal_pushed {
            (self.note_off(note), false)
        } else {
            (
                RegionView {
                    notes_for_release_trigger: self.notes_for_release_trigger.insert(note),
                    ..self
                },
                false,
            )
        }
    }

    /// A controller changes. The sustain pedal is seen to first; then, where
    /// the region is set to sound on this controller at this value, it fires
    /// at its key center with the highest velocity. The second part says
    /// whether the region fired, for either reason.
    pub open spec fn handle_control_event(self, number: u8, value: u8) -> (Self, bool) {
        let after_pedal = if number == SUSTAIN_PEDAL {
            self.sustain_pedal(value >= PEDAL_PUSHED)
        } else {
            (self, false)
        };
        if self.params.cc_fires(number, value) {
            (after_pedal.0.note_on(self.params.pitch_keycenter, MIDI_MAX), true)
        } else {
            after_pedal
        }
    }

    /// A message arrives, with the draw made for it. The second part says
    /// whether the region fired.
    pub open spec fn pass_midi_msg(self, msg: MidiMessage, draw: u32) -> (Self, bool) {
        let start = RegionView { immune: false, ..self };
        match msg {
            MidiMessage::NoteOn(_, note, velocity) => start.handle_note_on(note, velocity, draw),
            MidiMessage::NoteOff(_, note, _) => start.handle_note_off(note),
            MidiMessage::ControlChange(_, number, value) => start.handle_control_event(
                number,
                value,
            ),
            MidiMessage::Other => (start, false),
        }
    }

    /// The region has been asked for its group after firing.
    pub open spec fn group(self) -> Self {
        RegionView { immune: true, ..self }
    }

    /// `group` silences the region: it is a group, the region is not shielded,
    /// and it is the region's own group or the one that switches it off.
    pub open spec fn silenced_by(self, group: u32) -> bool {
        !self.immune && group != 0 && (group == self.params.group || group == self.params.off_by)
    }

    /// A group has been set off.
    pub open spec fn group_activated(self, group: u32) -> Self {
        if self.silenced_by(group) {
            self.all_notes_off()
        } else {
            self
        }
    }

    /// A block of `frames` frames has been rendered: the voices have moved
    /// on, and so has the time since the region last fired.
    pub open spec fn process(self, frames: usize) -> Self {
        RegionView {
            sample: self.sample.process(frames),
            frames_since_note_on: frames_after(self.frames_since_note_on, frames),
            ..self
        }
    }

    /// The voice known under `serial` has run out.
    pub open spec fn voice_finished(self, serial: u64) -> Self {
        RegionView { sample: self.sample.retire(serial), ..self }
    }

    /// The release of the voice known under `serial` has fallen below the
    /// floor.
    pub open spec fn floor_reached(self, serial: u64) -> Self {
        RegionView { sample: self.sample.floor_reached(serial), ..self }
    }
}

/// One region of an instrument.
pub struct Region {
    params: RegionData,
    sample: SampleVoice,
    last_note_on: Option<(u8, u8)>,
    notes_for_release_trigger: NoteSet,
    other_notes_on: NoteSet,
    frames_since_note_on: u64,
    sustain_pedal_pushed: bool,
    once_immune_against_group_events: bool,
}

impl View for Region {
    type V = RegionView;

    closed spec fn view(&self) -> RegionView {
        RegionView {
            params: self.params@,
            sample: self.sample@,
            last_note_on: self.last_note_on,
            notes_for_release_trigger: self.notes_for_release_trigger@,
            other_notes_on: self.other_notes_on@,
            frames_since_note_on: self.frames_since_note_on,
            sustain_pedal_pushed: self.sustain_pedal_pushed,
            immune: self.once_immune_against_group_events,
        }
    }
}

impl Region {
    pub open spec fn wf(&self) -> bool {
        self@.wf()
    }

    /// A silent region with the given settings, whose voices get envelopes of
    /// the given stage lengths, with room for `max_voices` voices.
    pub fn new(params: RegionData, lengths: StageLengths, max_voices: usize) -> (r: Region)
        ensures
            r.wf(),
            r@ == RegionView::initial(params@, lengths, max_voices),
    {
        Region {
            params,
            sample: SampleVoice::new(lengths, max_voices),
            last_note_on: None,
            notes_for_release_trigger: NoteSet::new(),
            other_notes_on: NoteSet::new(),
            frames_since_note_on: 0,
            sustain_pedal_pushed: false,
            once_immune_against_group_events: false,
        }
    }

    /// Counts a rendered block of `frames` frames: the voices move on in
    /// their envelopes, those that had fallen idle before the block leave,
    /// and the time since the region last fired grows, up to its largest
    /// value.
    pub fn process(&mut self, frames: usize)
        requires
            old(self).wf(),
        ensures
            final(self).wf(),
            final(self)@ == old(self)@.process(frames),
    {
        self.frames_since_note_on = self.frames_since_note_on.saturating_add(frames as u64);
        self.sample.process(frames);
    }

    /// Fires the region: starts a voice for `note`. The voice carries the
    /// velocity after tracking and, for a region that sounds on release, the
    /// time since the region last fired, which starts anew.
    pub fn note_on(&mut self, note: u8, velocity: u8)
        requires
            old(self).wf(),
        ensures
            final(self).wf(),
            final(self)@ == old(self)@.note_on(note, velocity),
    {
        let vel: u8 = if !self.params.veltrack_inverted() {
            velocity
        } else if velocity >= 127 {
            0
        } else {
            127 - velocity
        };
        let elapsed: u64 = if self.params.trigger().on_release() {
            self.frames_since_note_on
        } else {
            0
        };
        self.frames_since_note_on = 0;
        self.sample.note_on(note, vel, elapsed);
    }

    /// Releases the oldest held voice of `note`.
    pub fn note_off(&mut self, note: u8)
        requires
            old(self).wf(),
        ensures
            final(self).wf(),
            final(self)@ == old(self)@.note_off(note),
    {
        self.sample.note_off(note);
    }

    /// Takes note of the sustain pedal going down or coming up, and says
    /// whether the region fired.
    pub fn sustain_pedal(&mut self, pushed: bool) -> (fired: bool)
        requires
            old(self).wf(),
        ensures
            final(self).wf(),
            final(self)@ == old(self)@.sustain_pedal(pushed).0,
            fired == old(self)@.sustain_pedal(pushed).1,
    {
        let was_pushed: bool = self.sustain_pedal_pushed;
        self.sustain_pedal_pushed = pushed;
        if pushed || !was_pushed {
            return false;
        }
        match self.params.trigger() {
            Trigger::Release => match self.last_note_on {
                Some((note, velocity)) => {
                    self.note_on(note, velocity);
                    true
                },
                None => false,
            },
            _ => {
                self.sample.release_notes(&self.notes_for_release_trigger);
                self.notes_for_release_trigger.clear();
                false
            },
        }
    }

    /// Answers a key going down, and says whether the region fired.
    pub fn handle_note_on(&mut self, note: u8, velocity: u8, draw: u32) -> (fired: bool)
        requires
            old(self).wf(),
        ensures
            final(self).wf(),
            final(self)@ == old(self)@.handle_note_on(note, velocity, draw).0,
            fired == old(self)@.handle_note_on(note, velocity, draw).1,
    {
        if !self.params.key_range().covering(note) {
            self.other_notes_on.insert(note);
            return false;
        }
        if !self.params.vel_range().covering(velocity) {
            return false;
        }
        match self.params.trigger() {
            Trigger::Release | Trigger::ReleaseKey => {
                self.last_note_on = Some((note, velocity));
                self.notes_for_release_trigger.remove(note);
                return false;
            },
            Trigger::First => {
                if !self.other_notes_on.is_empty() {
                    return false;
                }
            },
            Trigger::Legato => {
                if self.other_notes_on.is_empty() {
                    return false;
                }
            },
            Trigger::Attack => {},
        }
        if !self.params.random_range().covering(draw) {
            return false;
        }
        self.note_on(note, velocity);
        self.notes_for_release_trigger.remove(note);
        true
    }

    /// Answers a key coming up, and says whether the region fired.
    pub fn handle_note_off(&mut self, note: u8) -> (fired: bool)
        requires
            old(self).wf(),
        ensures
            final(self).wf(),
            final(self)@ == old(self)@.handle_note_off(note).0,
            fired == old(self)@.handle_note_off(note).1,
    {
        if !self.params.key_range().covering(note) {
            self.other_notes_on.remove(note);
            return false;
        }
        if self.params.trigger().on_release() {
            match self.last_note_on {
                Some((last, velocity)) => {
                    self.note_on(last, velocity);
                    true
                },
                None => false,
            }
        } else {
            if !self.sustain_pedal_pushed {
                self.note_off(note);
            } else {
                self.notes_for_release_trigger.insert(note);
            }
            false
        }
    }

    /// Answers a controller change, and says whether the region fired.
    pub fn handle_control_event(&mut self, number: u8, value: u8) -> (fired: bool)
        requires
            old(self).wf(),
        ensures
            final(self).wf(),
            final(self)@ == old(self)@.handle_control_event(number, value).0,
            fired == old(self)@.handle_control_event(number, value).1,
    {
        let pedal_fired: bool = if number == SUSTAIN_PEDAL {
            self.sustain_pedal(value >= PEDAL_PUSHED)
        } else {
            false
        };
        let cc_fires: bool = match self.params.on_cc(number) {
            Some(range) => range.covering(value),
            None => false,
        };
        if cc_fires {
            let keycenter: u8 = self.params.pitch_keycenter();
            self.note_on(keycenter, MIDI_MAX);
            true
        } else {
            pedal_fired
        }
    }

    /// Answers a message, given the draw made for it, and says whether the
    /// region fired. A region that fires is to be asked for its group.
    pub fn pass_midi_msg(&mut self, midi_msg: &MidiMessage, draw: u32) -> (fired: bool)
        requires
            old(self).wf(),
        ensures
            final(self).wf(),
            final(self)@ == old(self)@.pass_midi_msg(*midi_msg, draw).0,
            fired == old(self)@.pass_midi_msg(*midi_msg, draw).1,
    {
        self.once_immune_against_group_events = false;
        match midi_msg {
            MidiMessage::NoteOn(_, note, velocity) => self.handle_note_on(*note, *velocity, draw),
            MidiMessage::NoteOff(_, note, _) => self.handle_note_off(*note),
            MidiMessage::ControlChange(_, number, value) => self.handle_control_event(
                *number,
                *value,
            ),
            MidiMessage::Other => false,
        }
    }

    /// The group of the region, asked for after it fired: the region is
    /// shielded from the groups that the message at hand sets off.
    pub fn group(&mut self) -> (group: u32)
        requires
            old(self).wf(),
        ensures
            final(self).wf(),
            final(self)@ == old(self)@.group(),
            group == old(self)@.params.group,
    {
        self.once_immune_against_group_events = true;
        self.params.group()
    }

    /// Releases every voice if `group` silences the region.
    pub fn group_activated(&mut self, group: u32)
        requires
            old(self).wf(),
        ensures
            final(self).wf(),
            final(self)@ == old(self)@.group_activated(group),
    {
        if self.once_immune_against_group_events || group == 0 {
            return ;
        }
        if group == self.params.group() || group == self.params.off_by() {
            self.sample.all_notes_off();
        }
    }

    /// Releases every voice.
    pub fn all_notes_off(&mut self)
        requires
            old(self).wf(),
        ensures
            final(self).wf(),
            final(self)@ == old(self)@.all_notes_off(),
    {
        self.sample.all_notes_off();
    }

    /// Takes out the voice known under `serial`, which has run out.
    pub fn voice_finished(&mut self, serial: u64)
        requires
            old(self).wf(),
        ensures
            final(self).wf(),
            final(self)@ == old(self)@.voice_finished(serial),
    {
        self.sample.voice_finished(serial);
    }

    /// Ends the release of the voice known under `serial`, whose level has
    /// fallen below the floor. The voice leaves with the next block.
    pub fn floor_reached(&mut self, serial: u64)
        requires
            old(self).wf(),
        ensures
            final(self).wf(),
            final(self)@ == old(self)@.floor_reached(serial),
    {
        self.sample.floor_reached(serial);
    }

    /// The settings of the region.
    pub fn params(&self) -> (p: &RegionData)
        ensures
            p@ == self@.params,
    {
        &self.params
    }

    /// The voice table of the region.
    pub fn sample(&self) -> (s: &SampleVoice)
        ensures
            s@ == self@.sample,
    {
        &self.sample
    }

    pub fn last_note_on(&self) -> (last: Option<(u8, u8)>)
        ensures
            last == self@.last_note_on,
    {
        self.last_note_on
    }

    /// Frames rendered since the region last fired.
    pub fn frames_since_note_on(&self) -> (frames: u64)
        ensures
            frames == self@.frames_since_note_on,
    {
        self.frames_since_note_on
    }

    pub fn sustain_pedal_pushed(&self) -> (pushed: bool)
        ensures
            pushed == self@.sustain_pedal_pushed,
    {
        self.sustain_pedal_pushed
    }

    /// Whether a release of `note` waits for the sustain pedal.
    pub fn awaits_pedal(&self, note: u8) -> (b: bool)
        ensures
            b == self@.notes_for_release_trigger.contains(note),
    {
        self.notes_for_release_trigger.contains(note)
    }

    /// Whether `note`, a key outside the range, is held.
    pub fn other_note_on(&self, note: u8) -> (b: bool)
        ensures
            b == self@.other_notes_on.contains(note),
    {
        self.other_notes_on.contains(note)
    }
}

} // verus!
