//! Value ranges that gate a region: velocities, keys, controller values and
//! the random draw of an event.
//!
//! Every range keeps its lower end at or below its upper end. An assignment
//! that would flip the two, or that lies outside the domain of the opcode, is
//! refused and leaves the range as it was.

use vstd::prelude::*;

verus! {

/// Largest value a seven-bit MIDI data byte can take.
pub const MIDI_MAX: u8 = 127;

/// One, the upper end of the random interval, in draw units.
///
/// A draw is the numerator of a fraction over two to the twenty-fourth: the
/// resolution at which a uniform single-precision value in `[0, 1)` is made
/// from a random word.
pub const RANDOM_UNIT: u32 = 0x0100_0000;

/// The opcode an assignment was made for.
#[derive(Clone, Copy, Debug, PartialEq, Eq)]
pub enum Opcode {
    HiVel,
    LoVel,
    HiKey,
    LoKey,
    HiRand,
    LoRand,
    OnHiCc,
    OnLoCc,
    PitchKeycenter,
    Tune,
}

/// Why an assignment was refused.
#[derive(Clone, Copy, Debug, PartialEq, Eq)]
pub enum RangeError {
    /// `value` lies outside `lo ..= hi`, the domain of the opcode.
    OutOfRange { opcode: Opcode, lo: i64, hi: i64, value: i64 },
    /// `value` would cross `bound`, the other end of the range.
    FlippedRange { opcode: Opcode, value: i64, bound: i64 },
}

pub open spec fn out_of_range(opcode: Opcode, lo: i64, hi: i64, value: i64) -> RangeError {
    RangeError::OutOfRange { opcode, lo, hi, value }
}

pub open spec fn flipped_range(opcode: Opcode, value: i64, bound: i64) -> RangeError {
    RangeError::FlippedRange { opcode, value, bound }
}

/// `wmidi::U7::try_from`, with the byte taken back out of what it gives: a
/// data byte of at most 127 is accepted as it is, a larger one is refused.
#[verifier::external_body]
fn data_byte(value: u8) -> (byte: Option<u8>)
    ensures
        byte == if value <= MIDI_MAX {
            Some(value)
        } else {
            None::<u8>
        },
{
    wmidi::U7::try_from(value).ok().map(u8::from)
}

/// `wmidi::Note::try_from`, with the number taken back out of the note it
/// gives: a number of at most 127 is accepted as it is, a larger one is
/// refused.
#[verifier::external_body]
fn note_number(value: u8) -> (number: Option<u8>)
    ensures
        number == if value <= MIDI_MAX {
            Some(value)
        } else {
            None::<u8>
        },
{
    wmidi::Note::try_from(value).ok().map(u8::from)
}

/// The MIDI data byte that `v` stands for, if it is one.
pub open spec fn spec_data_byte_of(v: i32) -> Option<u8> {
    if 0 <= v <= MIDI_MAX {
        Some(v as u8)
    } else {
        None
    }
}

/// The MIDI data byte that `v` stands for, if it is one: a velocity or a
/// controller value.
#[verifier::when_used_as_spec(spec_data_byte_of)]
pub fn data_byte_of(v: i32) -> (byte: Option<u8>)
    ensures
        byte == spec_data_byte_of(v),
{
    if v < 0 || v > 255 {
        None
    } else {
        data_byte(v as u8)
    }
}

/// The key that `v` stands for, if it is one.
#[verifier::when_used_as_spec(spec_data_byte_of)]
pub fn note_of(v: i32) -> (note: Option<u8>)
    ensures
        note == spec_data_byte_of(v),
{
    if v < 0 || v > 255 {
        None
    } else {
        note_number(v as u8)
    }
}

/// Two optional ends are MIDI values where present, and in order where both
/// are.
pub open spec fn ends_wf(lo: Option<u8>, hi: Option<u8>) -> bool {
    match (lo, hi) {
        (Some(a), Some(b)) => a <= b && b <= MIDI_MAX,
        (Some(a), None) => a <= MIDI_MAX,
        (None, Some(b)) => b <= MIDI_MAX,
        (None, None) => true,
    }
}

/// Velocities `lo ..= hi` within `0 ..= 127`.
#[derive(Clone, Copy, Debug, PartialEq, Eq)]
pub struct VelRange {
    lo: u8,
    hi: u8,
}

impl VelRange {
    #[verifier::type_invariant]
    spec fn inv(self) -> bool {
        self.lo <= self.hi && self.hi <= MIDI_MAX
    }

    pub closed spec fn spec_lo(&self) -> u8 {
        self.lo
    }

    pub closed spec fn spec_hi(&self) -> u8 {
        self.hi
    }

    /// The lower end does not exceed the upper one, which is a MIDI value.
    pub open spec fn wf(&self) -> bool {
        self.spec_lo() <= self.spec_hi() && self.spec_hi() <= MIDI_MAX
    }

    pub open spec fn spec_covering(&self, vel: u8) -> bool {
        self.spec_lo() <= vel && vel <= self.spec_hi()
    }

    /// What `set_hi(v)` answers on a range whose lower end is `lo`.
    pub open spec fn set_hi_result(lo: u8, v: i32) -> Result<(), RangeError> {
        if v < 0 || v > MIDI_MAX {
            Err(out_of_range(Opcode::HiVel, 0, 127, v as i64))
        } else if v < lo {
            Err(flipped_range(Opcode::HiVel, v as i64, lo as i64))
        } else {
            Ok(())
        }
    }

    /// What `set_lo(v)` answers on a range whose upper end is `hi`.
    pub open spec fn set_lo_result(hi: u8, v: i32) -> Result<(), RangeError> {
        if v < 0 || v > MIDI_MAX {
            Err(out_of_range(Opcode::LoVel, 0, 127, v as i64))
        } else if v > hi {
            Err(flipped_range(Opcode::LoVel, v as i64, hi as i64))
        } else {
            Ok(())
        }
    }

    /// The full range, `0 ..= 127`.
    pub fn new() -> (r: VelRange)
        ensures
            r.spec_lo() == 0,
            r.spec_hi() == MIDI_MAX,
            r.wf(),
    {
        VelRange { lo: 0, hi: MIDI_MAX }
    }

    #[verifier::when_used_as_spec(spec_lo)]
    pub fn lo(&self) -> (v: u8)
        ensures
            v == self.spec_lo(),
            self.wf(),
    {
        proof {
            use_type_invariant(self);
        }
        self.lo
    }

    #[verifier::when_used_as_spec(spec_hi)]
    pub fn hi(&self) -> (v: u8)
        ensures
            v == self.spec_hi(),
            self.wf(),
    {
        proof {
            use_type_invariant(self);
        }
        self.hi
    }

    pub fn set_hi(&mut self, v: i32) -> (r: Result<(), RangeError>)
        ensures
            r == Self::set_hi_result(old(self).spec_lo(), v),
            r is Ok ==> final(self).spec_hi() == v && final(self).spec_lo() == old(self).spec_lo(),
            r is Err ==> *final(self) == *old(self),
            final(self).wf(),
    {
        proof {
            use_type_invariant(&*self);
        }
        let vel: u8 = match data_byte_of(v) {
            Some(vel) => vel,
            None => {
                return Err(RangeError::OutOfRange { opcode: Opcode::HiVel, lo: 0, hi: 127, value: v as i64 });
            },
        };
        if vel < self.lo {
            return Err(
                RangeError::FlippedRange { opcode: Opcode::HiVel, value: v as i64, bound: self.lo as i64 },
            );
        }
        self.hi = vel;
        Ok(())
    }

    pub fn set_lo(&mut self, v: i32) -> (r: Result<(), RangeError>)
        ensures
            r == Self::set_lo_result(old(self).spec_hi(), v),
            r is Ok ==> final(self).spec_lo() == v && final(self).spec_hi() == old(self).spec_hi(),
            r is Err ==> *final(self) == *old(self),
            final(self).wf(),
    {
        proof {
            use_type_invariant(&*self);
        }
        let vel: u8 = match data_byte_of(v) {
            Some(vel) => vel,
            None => {
                return Err(RangeError::OutOfRange { opcode: Opcode::LoVel, lo: 0, hi: 127, value: v as i64 });
            },
        };
        if vel > self.hi {
            return Err(
                RangeError::FlippedRange { opcode: Opcode::LoVel, value: v as i64, bound: self.hi as i64 },
            );
        }
        self.lo = vel;
        Ok(())
    }

    pub fn covering(&self, vel: u8) -> (b: bool)
        ensures
            b == self.spec_covering(vel),
    {
        vel >= self.lo && vel <= self.hi
    }
}

impl Default for VelRange {
    fn default() -> (r: VelRange)
        ensures
            r.spec_lo() == 0,
            r.spec_hi() == MIDI_MAX,
            r.wf(),
    {
        VelRange::new()
    }
}

/// Keys `lo ..= hi` within `0 ..= 127`; an end may be switched off, and a
/// range with an end switched off matches no key.
#[derive(Clone, Copy, Debug, PartialEq, Eq)]
pub struct NoteRange {
    lo: Option<u8>,
    hi: Option<u8>,
}

impl NoteRange {
    #[verifier::type_invariant]
    spec fn inv(self) -> bool {
        ends_wf(self.lo, self.hi)
    }

    pub closed spec fn spec_lo(&self) -> Option<u8> {
        self.lo
    }

    pub closed spec fn spec_hi(&self) -> Option<u8> {
        self.hi
    }

    /// Both ends are MIDI values where present, and in order where both are.
    pub open spec fn wf(&self) -> bool {
        ends_wf(self.spec_lo(), self.spec_hi())
    }

    pub open spec fn spec_covering(&self, note: u8) -> bool {
        match (self.spec_lo(), self.spec_hi()) {
            (Some(lo), Some(hi)) => lo <= note && note <= hi,
            _ => false,
        }
    }

    /// What `set_hi(v)` answers on a range whose lower end is `lo`.
    pub open spec fn set_hi_result(lo: Option<u8>, v: i32) -> Result<(), RangeError> {
        if v == -1 {
            Ok(())
        } else if v < 0 || v > MIDI_MAX {
            Err(out_of_range(Opcode::HiKey, -1i64, 127, v as i64))
        } else if lo matches Some(n) && v < n {
            Err(flipped_range(Opcode::HiKey, v as i64, lo->0 as i64))
        } else {
            Ok(())
        }
    }

    /// What `set_lo(v)` answers on a range whose upper end is `hi`.
    pub open spec fn set_lo_result(hi: Option<u8>, v: i32) -> Result<(), RangeError> {
        if v == -1 {
            Ok(())
        } else if v < 0 || v > MIDI_MAX {
            Err(out_of_range(Opcode::LoKey, -1i64, 127, v as i64))
        } else if hi matches Some(n) && v > n {
            Err(flipped_range(Opcode::LoKey, v as i64, hi->0 as i64))
        } else {
            Ok(())
        }
    }

    /// The end that an accepted assignment of `v` leaves behind.
    pub open spec fn end_of(v: i32) -> Option<u8> {
        if v == -1 {
            None
        } else {
            Some(v as u8)
        }
    }

    /// Every key, `0 ..= 127`.
    pub fn new() -> (r: NoteRange)
        ensures
            r.spec_lo() == Some(0u8),
            r.spec_hi() == Some(MIDI_MAX),
            r.wf(),
    {
        NoteRange { lo: Some(0), hi: Some(MIDI_MAX) }
    }

    #[verifier::when_used_as_spec(spec_lo)]
    pub fn lo(&self) -> (v: Option<u8>)
        ensures
            v == self.spec_lo(),
            self.wf(),
    {
        proof {
            use_type_invariant(self);
        }
        self.lo
    }

    #[verifier::when_used_as_spec(spec_hi)]
    pub fn hi(&self) -> (v: Option<u8>)
        ensures
            v == self.spec_hi(),
            self.wf(),
    {
        proof {
            use_type_invariant(self);
        }
        self.hi
    }

    /// Sets the upper end; `-1` switches it off.
    pub fn set_hi(&mut self, v: i32) -> (r: Result<(), RangeError>)
        ensures
            r == Self::set_hi_result(old(self).spec_lo(), v),
            r is Ok ==> final(self).spec_hi() == Self::end_of(v) && final(self).spec_lo() == old(
                self,
            ).spec_lo(),
            r is Err ==> *final(self) == *old(self),
            final(self).wf(),
    {
        proof {
            use_type_invariant(&*self);
        }
        if v == -1 {
            self.hi = None;
            return Ok(());
        }
        let note: u8 = match note_of(v) {
            Some(note) => note,
            None => {
                return Err(RangeError::OutOfRange { opcode: Opcode::HiKey, lo: -1, hi: 127, value: v as i64 });
            },
        };
        match self.lo {
            Some(n) => {
                if note < n {
                    return Err(
                        RangeError::FlippedRange { opcode: Opcode::HiKey, value: v as i64, bound: n as i64 },
                    );
                }
            },
            None => {},
        }
        self.hi = Some(note);
        Ok(())
    }

    /// Sets the lower end; `-1` switches it off.
    pub fn set_lo(&mut self, v: i32) -> (r: Result<(), RangeError>)
        ensures
            r == Self::set_lo_result(old(self).spec_hi(), v),
            r is Ok ==> final(self).spec_lo() == Self::end_of(v) && final(self).spec_hi() == old(
                self,
            ).spec_hi(),
            r is Err ==> *final(self) == *old(self),
            final(self).wf(),
    {
        proof {
            use_type_invariant(&*self);
        }
        if v == -1 {
            self.lo = None;
            return Ok(());
        }
        let note: u8 = match note_of(v) {
            Some(note) => note,
            None => {
                return Err(RangeError::OutOfRange { opcode: Opcode::LoKey, lo: -1, hi: 127, value: v as i64 });
            },
        };
        match self.hi {
            Some(n) => {
                if note > n {
                    return Err(
                        RangeError::FlippedRange { opcode: Opcode::LoKey, value: v as i64, bound: n as i64 },
                    );
                }
            },
            None => {},
        }
        self.lo = Some(note);
        Ok(())
    }

    pub fn covering(&self, note: u8) -> (b: bool)
        ensures
            b == self.spec_covering(note),
    {
        match (self.lo, self.hi) {
            (Some(lo), Some(hi)) => note >= lo && note <= hi,
            _ => false,
        }
    }
}

impl Default for NoteRange {
    fn default() -> (r: NoteRange)
        ensures
            r.spec_lo() == Some(0u8),
            r.spec_hi() == Some(MIDI_MAX),
            r.wf(),
    {
        NoteRange::new()
    }
}

/// The part `[lo, hi)` of the random interval, in draw units (see
/// [`RANDOM_UNIT`]).
///
/// Both ends start at zero, which stands for "not set". A range whose ends are
/// equal lets every draw pass.
#[derive(Clone, Copy, Debug, PartialEq, Eq)]
pub struct RandomRange {
    hi: u32,
    lo: u32,
}

impl RandomRange {
    #[verifier::type_invariant]
    spec fn inv(self) -> bool {
        &&& self.lo <= RANDOM_UNIT
        &&& self.hi <= RANDOM_UNIT
        &&& self.lo <= self.hi || self.hi == 0
    }

    pub closed spec fn spec_lo(&self) -> u32 {
        self.lo
    }

    pub closed spec fn spec_hi(&self) -> u32 {
        self.hi
    }

    /// Both ends lie in the unit interval, and they are in order unless the
    /// upper end is still unset.
    pub open spec fn wf(&self) -> bool {
        &&& self.spec_lo() <= RANDOM_UNIT
        &&& self.spec_hi() <= RANDOM_UNIT
        &&& self.spec_lo() <= self.spec_hi() || self.spec_hi() == 0
    }

    pub open spec fn spec_covering(&self, draw: u32) -> bool {
        self.spec_hi() == self.spec_lo() || (self.spec_lo() <= draw && draw < self.spec_hi())
    }

    /// What `set_hi(v)` answers on a range whose lower end is `lo`.
    pub open spec fn set_hi_result(lo: u32, v: i32) -> Result<(), RangeError> {
        if v < 0 || v > RANDOM_UNIT {
            Err(out_of_range(Opcode::HiRand, 0, RANDOM_UNIT as i64, v as i64))
        } else if v < lo && lo > 0 {
            Err(flipped_range(Opcode::HiRand, v as i64, lo as i64))
        } else {
            Ok(())
        }
    }

    /// What `set_lo(v)` answers on a range whose upper end is `hi`.
    pub open spec fn set_lo_result(hi: u32, v: i32) -> Result<(), RangeError> {
        if v < 0 || v > RANDOM_UNIT {
            Err(out_of_range(Opcode::LoRand, 0, RANDOM_UNIT as i64, v as i64))
        } else if v > hi && hi > 0 {
            Err(flipped_range(Opcode::LoRand, v as i64, hi as i64))
        } else {
            Ok(())
        }
    }

    /// The range with both ends unset, which lets every draw pass.
    pub fn new() -> (r: RandomRange)
        ensures
            r.spec_lo() == 0,
            r.spec_hi() == 0,
            r.wf(),
    {
        RandomRange { hi: 0, lo: 0 }
    }

    #[verifier::when_used_as_spec(spec_lo)]
    pub fn lo(&self) -> (v: u32)
        ensures
            v == self.spec_lo(),
            self.wf(),
    {
        proof {
            use_type_invariant(self);
        }
        self.lo
    }

    #[verifier::when_used_as_spec(spec_hi)]
    pub fn hi(&self) -> (v: u32)
        ensures
            v == self.spec_hi(),
            self.wf(),
    {
        proof {
            use_type_invariant(self);
        }
        self.hi
    }

    /// Sets the upper end, in draw units. A value outside the unit interval is
    /// out of range; one below a lower end that has been set is flipped.
    pub fn set_hi(&mut self, v: i32) -> (r: Result<(), RangeError>)
        ensures
            r == Self::set_hi_result(old(self).spec_lo(), v),
            r is Ok ==> final(self).spec_hi() == v && final(self).spec_lo() == old(self).spec_lo(),
            r is Err ==> *final(self) == *old(self),
            final(self).wf(),
    {
        proof {
            use_type_invariant(&*self);
        }
        if v < 0 || v > 0x0100_0000 {
            return Err(
                RangeError::OutOfRange { opcode: Opcode::HiRand, lo: 0, hi: 0x0100_0000, value: v as i64 },
            );
        }
        let units: u32 = v as u32;
        if units < self.lo && self.lo > 0 {
            return Err(
                RangeError::FlippedRange {
                    opcode: Opcode::HiRand,
                    value: v as i64,
                    bound: self.lo as i64,
                },
            );
        }
        self.hi = units;
        Ok(())
    }

    /// Sets the lower end, in draw units. A value outside the unit interval is
    /// out of range; one above an upper end that has been set is flipped.
    pub fn set_lo(&mut self, v: i32) -> (r: Result<(), RangeError>)
        ensures
            r == Self::set_lo_result(old(self).spec_hi(), v),
            r is Ok ==> final(self).spec_lo() == v && final(self).spec_hi() == old(self).spec_hi(),
            r is Err ==> *final(self) == *old(self),
            final(self).wf(),
    {
        proof {
            use_type_invariant(&*self);
        }
        if v < 0 || v > 0x0100_0000 {
            return Err(
                RangeError::OutOfRange { opcode: Opcode::LoRand, lo: 0, hi: 0x0100_0000, value: v as i64 },
            );
        }
        let units: u32 = v as u32;
        if units > self.hi && self.hi > 0 {
            return Err(
                RangeError::FlippedRange {
                    opcode: Opcode::LoRand,
                    value: v as i64,
                    bound: self.hi as i64,
                },
            );
        }
        self.lo = units;
        Ok(())
    }

    /// Whether a draw passes: always where the ends are equal, else where it
    /// lies in `[lo, hi)`.
    pub fn covering(&self, draw: u32) -> (b: bool)
        ensures
            b == self.spec_covering(draw),
    {
        self.hi == self.lo || (draw >= self.lo && draw < self.hi)
    }
}

impl Default for RandomRange {
    fn default() -> (r: RandomRange)
        ensures
            r.spec_lo() == 0,
            r.spec_hi() == 0,
            r.wf(),
    {
        RandomRange::new()
    }
}

/// Controller values `lo ..= hi` within `0 ..= 127`; an end may be switched
/// off, and a range with an end switched off matches no value.
#[derive(Clone, Copy, Debug, PartialEq, Eq)]
pub struct ControlValRange {
    hi: Option<u8>,
    lo: Option<u8>,
}

impl ControlValRange {
    #[verifier::type_invariant]
    spec fn inv(self) -> bool {
        ends_wf(self.lo, self.hi)
    }

    pub closed spec fn spec_lo(&self) -> Option<u8> {
        self.lo
    }

    pub closed spec fn spec_hi(&self) -> Option<u8> {
        self.hi
    }

    /// Both ends are MIDI values where present, and in order where both are.
    pub open spec fn wf(&self) -> bool {
        ends_wf(self.spec_lo(), self.spec_hi())
    }

    pub open spec fn spec_covering(&self, value: u8) -> bool {
        match (self.spec_lo(), self.spec_hi()) {
            (Some(lo), Some(hi)) => lo <= value && value <= hi,
            _ => false,
        }
    }

    /// What `set_hi(v)` answers on a range whose lower end is `lo`.
    pub open spec fn set_hi_result(lo: Option<u8>, v: i32) -> Result<(), RangeError> {
        if v < 0 {
            Ok(())
        } else if v > MIDI_MAX {
            Err(out_of_range(Opcode::OnHiCc, 0, 127, v as i64))
        } else if lo matches Some(n) && v < n {
            Err(flipped_range(Opcode::OnHiCc, v as i64, lo->0 as i64))
        } else {
            Ok(())
        }
    }

    /// What `set_lo(v)` answers on a range whose upper end is `hi`.
    pub open spec fn set_lo_result(hi: Option<u8>, v: i32) -> Result<(), RangeError> {
        if v < 0 {
            Ok(())
        } else if v > MIDI_MAX {
            Err(out_of_range(Opcode::OnLoCc, 0, 127, v as i64))
        } else if hi matches Some(n) && v > n {
            Err(flipped_range(Opcode::OnLoCc, v as i64, hi->0 as i64))
        } else {
            Ok(())
        }
    }

    /// The end that an accepted assignment of `v` leaves behind.
    pub open spec fn end_of(v: i32) -> Option<u8> {
        if v < 0 {
            None
        } else {
            Some(v as u8)
        }
    }

    /// The range with both ends switched off.
    pub fn new() -> (r: ControlValRange)
        ensures
            r.spec_lo() == None::<u8>,
            r.spec_hi() == None::<u8>,
            r.wf(),
    {
        ControlValRange { hi: None, lo: None }
    }

    #[verifier::when_used_as_spec(spec_lo)]
    pub fn lo(&self) -> (v: Option<u8>)
        ensures
            v == self.spec_lo(),
            self.wf(),
    {
        proof {
            use_type_invariant(self);
        }
        self.lo
    }

    #[verifier::when_used_as_spec(spec_hi)]
    pub fn hi(&self) -> (v: Option<u8>)
        ensures
            v == self.spec_hi(),
            self.wf(),
    {
        proof {
            use_type_invariant(self);
        }
        self.hi
    }

    /// Sets the upper end; a negative value switches it off.
    pub fn set_hi(&mut self, v: i32) -> (r: Result<(), RangeError>)
        ensures
            r == Self::set_hi_result(old(self).spec_lo(), v),
            r is Ok ==> final(self).spec_hi() == Self::end_of(v) && final(self).spec_lo() == old(
                self,
            ).spec_lo(),
            r is Err ==> *final(self) == *old(self),
            final(self).wf(),
    {
        proof {
            use_type_invariant(&*self);
        }
        if v < 0 {
            self.hi = None;
            return Ok(());
        }
        let val: u8 = match data_byte_of(v) {
            Some(val) => val,
            None => {
                return Err(RangeError::OutOfRange { opcode: Opcode::OnHiCc, lo: 0, hi: 127, value: v as i64 });
            },
        };
        match self.lo {
            Some(lo) => {
                if val < lo {
                    return Err(
                        RangeError::FlippedRange {
                            opcode: Opcode::OnHiCc,
                            value: v as i64,
                            bound: lo as i64,
                        },
                    );
                }
            },
            None => {},
        }
        self.hi = Some(val);
        Ok(())
    }

    /// Sets the lower end; a negative value switches it off.
    pub fn set_lo(&mut self, v: i32) -> (r: Result<(), RangeError>)
        ensures
            r == Self::set_lo_result(old(self).spec_hi(), v),
            r is Ok ==> final(self).spec_lo() == Self::end_of(v) && final(self).spec_hi() == old(
                self,
            ).spec_hi(),
            r is Err ==> *final(self) == *old(self),
            final(self).wf(),
    {
        proof {
            use_type_invariant(&*self);
        }
        if v < 0 {
            self.lo = None;
            return Ok(());
        }
        let val: u8 = match data_byte_of(v) {
            Some(val) => val,
            None => {
                return Err(RangeError::OutOfRange { opcode: Opcode::OnLoCc, lo: 0, hi: 127, value: v as i64 });
            },
        };
        match self.hi {
            Some(hi) => {
                if val > hi {
                    return Err(
                        RangeError::FlippedRange {
                            opcode: Opcode::OnLoCc,
                            value: v as i64,
                            bound: hi as i64,
                        },
                    );
                }
            },
            None => {},
        }
        self.lo = Some(val);
        Ok(())
    }

    pub fn covering(&self, value: u8) -> (b: bool)
        ensures
            b == self.spec_covering(value),
    {
        match (self.lo, self.hi) {
            (Some(lo), Some(hi)) => value >= lo && value <= hi,
            _ => false,
        }
    }
}

impl Default for ControlValRange {
    fn default() -> (r: ControlValRange)
        ensures
            r.spec_lo() == None::<u8>,
            r.spec_hi() == None::<u8>,
            r.wf(),
    {
        ControlValRange::new()
    }
}

/// A velocity range that covers `vel` still covers it after its ends have
/// moved apart or stayed: covering is monotonic in the range.
pub proof fn lemma_vel_covering_monotonic(before: VelRange, after: VelRange, vel: u8)
    requires
        before.spec_covering(vel),
        after.spec_lo() <= before.spec_lo(),
        after.spec_hi() >= before.spec_hi(),
    ensures
        after.spec_covering(vel),
{
}

/// A key range that covers `note` still covers it after neither end has been
/// tightened. Switching an end off tightens it.
pub proof fn lemma_note_covering_monotonic(before: NoteRange, after: NoteRange, note: u8)
    requires
        before.spec_covering(note),
        after.spec_lo() matches Some(lo) && lo <= before.spec_lo()->0,
        after.spec_hi() matches Some(hi) && hi >= before.spec_hi()->0,
    ensures
        after.spec_covering(note),
{
}

/// A controller range that covers `value` still covers it after neither end
/// has been tightened. Switching an end off tightens it.
pub proof fn lemma_control_covering_monotonic(
    before: ControlValRange,
    after: ControlValRange,
    value: u8,
)
    requires
        before.spec_covering(value),
        after.spec_lo() matches Some(lo) && lo <= before.spec_lo()->0,
        after.spec_hi() matches Some(hi) && hi >= before.spec_hi()->0,
    ensures
        after.spec_covering(value),
{
}

/// A random range that lets `draw` pass still does after neither end has been
/// tightened, as long as it was a proper interval to begin with or the widened
/// range lets the draw pass on its own account: a range with equal ends passes
/// draws that a wider, proper interval around it need not hold.
pub proof fn lemma_random_covering_monotonic(before: RandomRange, after: RandomRange, draw: u32)
    requires
        before.spec_covering(draw),
        after.spec_lo() <= before.spec_lo(),
        after.spec_hi() >= before.spec_hi(),
        before.spec_lo() != before.spec_hi() || after.spec_lo() == after.spec_hi()
            || after.spec_covering(draw),
    ensures
        after.spec_covering(draw),
{
}

} // verus!
