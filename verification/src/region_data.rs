//! The settings of one region, as the instrument definition gives them.

use crate::range::{
    note_of, out_of_range, ControlValRange, NoteRange, Opcode, RandomRange, RangeError, VelRange, MIDI_MAX,
};
use std::collections::HashMap;
use vstd::prelude::*;

verus! {

/// The key a sample sounds at unshifted unless the definition says otherwise.
pub const DEFAULT_KEYCENTER: u8 = 60;

/// The most a region can be detuned in either direction, in cents.
pub const TUNE_MAX: i32 = 100;

/// What makes a region sound.
#[derive(Clone, Copy, Debug, PartialEq, Eq)]
pub enum Trigger {
    /// A key in range goes down.
    Attack,
    /// A key in range comes up, or the sustain pedal does after such a key
    /// went down.
    Release,
    /// A key in range goes down while no key outside the range is held.
    First,
    /// A key in range goes down while a key outside the range is held.
    Legato,
    /// A key in range comes up, whatever the sustain pedal does.
    ReleaseKey,
}

impl Default for Trigger {
    fn default() -> (t: Trigger)
        ensures
            t == Trigger::Attack,
    {
        Trigger::Attack
    }
}

impl Trigger {
    /// The region sounds when a key comes up, not when it goes down.
    pub open spec fn spec_on_release(self) -> bool {
        self == Trigger::Release || self == Trigger::ReleaseKey
    }

    #[verifier::when_used_as_spec(spec_on_release)]
    pub fn on_release(self) -> (b: bool)
        ensures
            b == self.spec_on_release(),
    {
        match self {
            Trigger::Release => true,
            Trigger::ReleaseKey => true,
            _ => false,
        }
    }
}

/// What the settings of a region say.
pub struct RegionParams {
    pub key_range: NoteRange,
    pub vel_range: VelRange,
    pub random_range: RandomRange,
    /// The controllers that make the region sound, each with the values at
    /// which it does.
    pub on_ccs: Map<u8, ControlValRange>,
    pub pitch_keycenter: u8,
    /// Velocity tracking is negative: a higher velocity sounds softer.
    pub veltrack_inverted: bool,
    /// Detuning in cents.
    pub tune: i32,
    pub trigger: Trigger,
    /// The group the region belongs to; zero for none.
    pub group: u32,
    /// The group that silences the region; zero for none.
    pub off_by: u32,
    /// The name of the sample file.
    pub sample: Seq<char>,
}

impl RegionParams {
    /// The upper end set for controller `key`, if any.
    pub open spec fn cc_hi(self, key: u8) -> Option<u8> {
        if self.on_ccs.contains_key(key) {
            self.on_ccs[key].spec_hi()
        } else {
            None
        }
    }

    /// The lower end set for controller `key`, if any.
    pub open spec fn cc_lo(self, key: u8) -> Option<u8> {
        if self.on_ccs.contains_key(key) {
            self.on_ccs[key].spec_lo()
        } else {
            None
        }
    }

    /// A change of controller `number` to `value` makes the region sound.
    pub open spec fn cc_fires(self, number: u8, value: u8) -> bool {
        self.on_ccs.contains_key(number) && self.on_ccs[number].spec_covering(value)
    }
}

/// The key under which the range of controller `channel` is kept: its low
/// eight bits.
pub open spec fn controller_key(channel: u32) -> u8 {
    (channel % 256) as u8
}

/// A file name with every backslash replaced by `separator`.
pub open spec fn with_separator(name: Seq<char>, separator: char) -> Seq<char> {
    Seq::new(
        name.len(),
        |i: int|
            if name[i] == '\\' {
                separator
            } else {
                name[i]
            },
    )
}

/// `String::push`: the character is added at the end.
#[verifier::external_body]
fn push_char(s: &mut String, c: char)
    ensures
        final(s)@ == old(s)@.push(c),
{
    s.push(c);
}

/// The settings of one region.
pub struct RegionData {
    key_range: NoteRange,
    vel_range: VelRange,
    random_range: RandomRange,
    pitch_keycenter: u8,
    veltrack_inverted: bool,
    sample: String,
    tune: i32,
    trigger: Trigger,
    group: u32,
    off_by: u32,
    on_ccs: HashMap<u8, ControlValRange>,
}

impl View for RegionData {
    type V = RegionParams;

    closed spec fn view(&self) -> RegionParams {
        RegionParams {
            key_range: self.key_range,
            vel_range: self.vel_range,
            random_range: self.random_range,
            on_ccs: self.on_ccs@,
            pitch_keycenter: self.pitch_keycenter,
            veltrack_inverted: self.veltrack_inverted,
            tune: self.tune,
            trigger: self.trigger,
            group: self.group,
            off_by: self.off_by,
            sample: self.sample@,
        }
    }
}

impl RegionData {
    /// The key center is a MIDI value, and the detuning is within a
    /// semitone.
    pub open spec fn wf(&self) -> bool {
        &&& self@.pitch_keycenter <= MIDI_MAX
        &&& -TUNE_MAX <= self@.tune <= TUNE_MAX
    }

    /// The keys the region answers to, for reading.
    pub fn key_range(&self) -> (r: &NoteRange)
        ensures
            *r == self@.key_range,
    {
        &self.key_range
    }

    /// The keys the region answers to, for setting.
    pub fn key_range_mut(&mut self) -> (r: &mut NoteRange)
        ensures
            *r == old(self)@.key_range,
            final(self)@ == (RegionParams { key_range: *final(r), ..old(self)@ }),
    {
        &mut self.key_range
    }

    /// The velocities the region answers to, for reading.
    pub fn vel_range(&self) -> (r: &VelRange)
        ensures
            *r == self@.vel_range,
    {
        &self.vel_range
    }

    /// The velocities the region answers to, for setting.
    pub fn vel_range_mut(&mut self) -> (r: &mut VelRange)
        ensures
            *r == old(self)@.vel_range,
            final(self)@ == (RegionParams { vel_range: *final(r), ..old(self)@ }),
    {
        &mut self.vel_range
    }

    /// The draws the region answers to, for reading.
    pub fn random_range(&self) -> (r: &RandomRange)
        ensures
            *r == self@.random_range,
    {
        &self.random_range
    }

    /// The draws the region answers to, for setting.
    pub fn random_range_mut(&mut self) -> (r: &mut RandomRange)
        ensures
            *r == old(self)@.random_range,
            final(self)@ == (RegionParams { random_range: *final(r), ..old(self)@ }),
    {
        &mut self.random_range
    }

    /// The settings of a region of which the definition says nothing: every
    /// key and velocity, every draw, no controller, an attack trigger, no
    /// group, key center 60, no detuning and no sample.
    pub fn new() -> (r: RegionData)
        ensures
            r.wf(),
            r@.key_range.spec_lo() == Some(0u8),
            r@.key_range.spec_hi() == Some(MIDI_MAX),
            r@.vel_range.spec_lo() == 0,
            r@.vel_range.spec_hi() == MIDI_MAX,
            r@.random_range.spec_lo() == 0,
            r@.random_range.spec_hi() == 0,
            r@.on_ccs == Map::<u8, ControlValRange>::empty(),
            r@.pitch_keycenter == DEFAULT_KEYCENTER,
            !r@.veltrack_inverted,
            r@.tune == 0,
            r@.trigger == Trigger::Attack,
            r@.group == 0,
            r@.off_by == 0,
            r@.sample == Seq::<char>::empty(),
    {
        RegionData {
            key_range: NoteRange::new(),
            vel_range: VelRange::new(),
            random_range: RandomRange::new(),
            pitch_keycenter: DEFAULT_KEYCENTER,
            veltrack_inverted: false,
            sample: String::new(),
            tune: 0,
            trigger: Trigger::Attack,
            group: 0,
            off_by: 0,
            on_ccs: HashMap::new(),
        }
    }

    /// What `set_pitch_keycenter(v)` answers.
    pub open spec fn keycenter_result(v: u32) -> Result<(), RangeError> {
        if v > MIDI_MAX {
            Err(out_of_range(Opcode::PitchKeycenter, 0, 127, v as i64))
        } else {
            Ok(())
        }
    }

    /// What `set_tune(v)` answers.
    pub open spec fn tune_result(v: i32) -> Result<(), RangeError> {
        if v < -TUNE_MAX || v > TUNE_MAX {
            Err(out_of_range(Opcode::Tune, -100i64, 100, v as i64))
        } else {
            Ok(())
        }
    }

    /// Sets the key at which the sample sounds unshifted, `0 ..= 127`.
    pub fn set_pitch_keycenter(&mut self, v: u32) -> (r: Result<(), RangeError>)
        ensures
            r == Self::keycenter_result(v),
            r is Ok ==> final(self)@ == (RegionParams { pitch_keycenter: v as u8, ..old(self)@ }),
            r is Err ==> final(self)@ == old(self)@,
            old(self).wf() ==> final(self).wf(),
    {
        let key: Option<u8> = if v > 0x7fff_ffff {
            None
        } else {
            note_of(v as i32)
        };
        match key {
            Some(note) => {
                self.pitch_keycenter = note;
                Ok(())
            },
            None => Err(
                RangeError::OutOfRange {
                    opcode: Opcode::PitchKeycenter,
                    lo: 0,
                    hi: 127,
                    value: v as i64,
                },
            ),
        }
    }

    /// Sets the detuning in cents, `-100 ..= 100`.
    pub fn set_tune(&mut self, v: i32) -> (r: Result<(), RangeError>)
        ensures
            r == Self::tune_result(v),
            r is Ok ==> final(self)@ == (RegionParams { tune: v, ..old(self)@ }),
            r is Err ==> final(self)@ == old(self)@,
            old(self).wf() ==> final(self).wf(),
    {
        if v < -100 || v > 100 {
            return Err(
                RangeError::OutOfRange { opcode: Opcode::Tune, lo: -100, hi: 100, value: v as i64 },
            );
        }
        self.tune = v;
        Ok(())
    }

    /// Says whether velocity tracking is negative.
    pub fn set_veltrack_inverted(&mut self, inverted: bool)
        ensures
            final(self)@ == (RegionParams { veltrack_inverted: inverted, ..old(self)@ }),
            old(self).wf() ==> final(self).wf(),
    {
        self.veltrack_inverted = inverted;
    }

    /// Names the sample file.
    pub fn set_sample(&mut self, v: &str)
        ensures
            final(self)@ == (RegionParams { sample: v@, ..old(self)@ }),
            old(self).wf() ==> final(self).wf(),
    {
        self.sample = v.to_owned();
    }

    pub fn set_trigger(&mut self, t: Trigger)
        ensures
            final(self)@ == (RegionParams { trigger: t, ..old(self)@ }),
            old(self).wf() ==> final(self).wf(),
    {
        self.trigger = t;
    }

    pub fn set_group(&mut self, v: u32)
        ensures
            final(self)@ == (RegionParams { group: v, ..old(self)@ }),
            old(self).wf() ==> final(self).wf(),
    {
        self.group = v;
    }

    pub fn set_off_by(&mut self, v: u32)
        ensures
            final(self)@ == (RegionParams { off_by: v, ..old(self)@ }),
            old(self).wf() ==> final(self).wf(),
    {
        self.off_by = v;
    }

    /// Sets the lower end of the values at which controller `channel` makes
    /// the region sound; a negative value switches the end off. A controller
    /// that had no range gets one, unless the assignment is refused.
    pub fn push_on_lo_cc(&mut self, channel: u32, v: i32) -> (r: Result<(), RangeError>)
        ensures
            r == ControlValRange::set_lo_result(old(self)@.cc_hi(controller_key(channel)), v),
            r is Err ==> final(self)@ == old(self)@,
            r is Ok ==> {
                &&& final(self)@ == (RegionParams { on_ccs: final(self)@.on_ccs, ..old(self)@ })
                &&& final(self)@.on_ccs.dom() == old(self)@.on_ccs.dom().insert(
                    controller_key(channel),
                )
                &&& final(self)@.cc_lo(controller_key(channel)) == ControlValRange::end_of(v)
                &&& final(self)@.cc_hi(controller_key(channel)) == old(self)@.cc_hi(
                    controller_key(channel),
                )
                &&& forall|k: u8|
                    k != controller_key(channel) && old(self)@.on_ccs.contains_key(k)
                        ==> final(self)@.on_ccs[k] == old(self)@.on_ccs[k]
            },
            old(self).wf() ==> final(self).wf(),
    {
        let key: u8 = (channel % 256) as u8;
        let mut range: ControlValRange = match self.on_ccs.get(&key) {
            Some(range) => *range,
            None => ControlValRange::new(),
        };
        let r = range.set_lo(v);
        if r.is_ok() {
            self.on_ccs.insert(key, range);
        }
        r
    }

    /// Sets the upper end of the values at which controller `channel` makes
    /// the region sound; a negative value switches the end off. A controller
    /// that had no range gets one, unless the assignment is refused.
    pub fn push_on_hi_cc(&mut self, channel: u32, v: i32) -> (r: Result<(), RangeError>)
        ensures
            r == ControlValRange::set_hi_result(old(self)@.cc_lo(controller_key(channel)), v),
            r is Err ==> final(self)@ == old(self)@,
            r is Ok ==> {
                &&& final(self)@ == (RegionParams { on_ccs: final(self)@.on_ccs, ..old(self)@ })
                &&& final(self)@.on_ccs.dom() == old(self)@.on_ccs.dom().insert(
                    controller_key(channel),
                )
                &&& final(self)@.cc_hi(controller_key(channel)) == ControlValRange::end_of(v)
                &&& final(self)@.cc_lo(controller_key(channel)) == old(self)@.cc_lo(
                    controller_key(channel),
                )
                &&& forall|k: u8|
                    k != controller_key(channel) && old(self)@.on_ccs.contains_key(k)
                        ==> final(self)@.on_ccs[k] == old(self)@.on_ccs[k]
            },
            old(self).wf() ==> final(self).wf(),
    {
        let key: u8 = (channel % 256) as u8;
        let mut range: ControlValRange = match self.on_ccs.get(&key) {
            Some(range) => *range,
            None => ControlValRange::new(),
        };
        let r = range.set_hi(v);
        if r.is_ok() {
            self.on_ccs.insert(key, range);
        }
        r
    }

    pub fn pitch_keycenter(&self) -> (v: u8)
        ensures
            v == self@.pitch_keycenter,
    {
        self.pitch_keycenter
    }

    pub fn veltrack_inverted(&self) -> (b: bool)
        ensures
            b == self@.veltrack_inverted,
    {
        self.veltrack_inverted
    }

    pub fn tune(&self) -> (v: i32)
        ensures
            v == self@.tune,
    {
        self.tune
    }

    pub fn trigger(&self) -> (t: Trigger)
        ensures
            t == self@.trigger,
    {
        self.trigger
    }

    pub fn group(&self) -> (v: u32)
        ensures
            v == self@.group,
    {
        self.group
    }

    pub fn off_by(&self) -> (v: u32)
        ensures
            v == self@.off_by,
    {
        self.off_by
    }

    pub fn sample(&self) -> (s: &str)
        ensures
            s@ == self@.sample,
    {
        self.sample.as_str()
    }

    /// The name of the sample file with `separator` in place of each
    /// backslash, the separator that instrument definitions are written with.
    pub fn sample_path(&self, separator: char) -> (path: String)
        ensures
            path@ == with_separator(self@.sample, separator),
    {
        let name: &str = self.sample.as_str();
        let n: usize = name.unicode_len();
        let mut path = String::new();
        let mut i: usize = 0;
        while i < n
            invariant
                n == name@.len(),
                name@ == self@.sample,
                i <= n,
                path@ == with_separator(name@, separator).subrange(0, i as int),
            decreases n - i,
        {
            let c: char = name.get_char(i);
            if c == '\\' {
                push_char(&mut path, separator);
            } else {
                push_char(&mut path, c);
            }
            assert(path@ =~= with_separator(name@, separator).subrange(0, i + 1));
            i = i + 1;
        }
        assert(path@ =~= with_separator(name@, separator));
        path
    }

    /// The range of values at which controller `number` makes the region
    /// sound, if it has one.
    pub fn on_cc(&self, number: u8) -> (r: Option<ControlValRange>)
        ensures
            r == if self@.on_ccs.contains_key(number) {
                Some(self@.on_ccs[number])
            } else {
                None::<ControlValRange>
            },
    {
        match self.on_ccs.get(&number) {
            Some(range) => Some(*range),
            None => None,
        }
    }
}

impl Clone for RegionData {
    fn clone(&self) -> (r: RegionData)
        ensures
            r@ == self@,
            self.wf() ==> r.wf(),
    {
        RegionData {
            key_range: self.key_range,
            vel_range: self.vel_range,
            random_range: self.random_range,
            pitch_keycenter: self.pitch_keycenter,
            veltrack_inverted: self.veltrack_inverted,
            sample: self.sample.clone(),
            tune: self.tune,
            trigger: self.trigger,
            group: self.group,
            off_by: self.off_by,
            on_ccs: self.on_ccs.clone(),
        }
    }
}

impl Default for RegionData {
    fn default() -> (r: RegionData)
        ensures
            r.wf(),
            r@.key_range.spec_lo() == Some(0u8),
            r@.key_range.spec_hi() == Some(MIDI_MAX),
            r@.vel_range.spec_lo() == 0,
            r@.vel_range.spec_hi() == MIDI_MAX,
            r@.random_range.spec_lo() == 0,
            r@.random_range.spec_hi() == 0,
            r@.on_ccs == Map::<u8, ControlValRange>::empty(),
            r@.pitch_keycenter == DEFAULT_KEYCENTER,
            !r@.veltrack_inverted,
            r@.tune == 0,
            r@.trigger == Trigger::Attack,
            r@.group == 0,
            r@.off_by == 0,
            r@.sample == Seq::<char>::empty(),
    {
        RegionData::new()
    }
}

} // verus!
