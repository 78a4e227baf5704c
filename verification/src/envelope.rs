//! The stages of an amplitude envelope, counted in samples.
//!
//! An envelope runs through attack, hold and decay into sustain while its
//! note is held, and through release once the note is off. Which stage the
//! next sample falls into, and how far into it, depends on the lengths of the
//! stages and on the number of samples made so far: that is what is kept
//! here. The gain at each sample is the renderer's to compute.

use vstd::prelude::*;

verus! {

/// A stage of the envelope.
#[derive(Clone, Copy, Debug, PartialEq, Eq)]
pub enum Stage {
    /// The envelope makes no sound.
    Idle,
    /// The gain ramps up to one.
    Attack,
    /// The gain stays at one.
    Hold,
    /// The gain falls to the sustain level.
    Decay,
    /// The gain stays at the sustain level for as long as the note is held.
    Sustain,
    /// The gain falls to silence.
    Release,
}

/// The lengths of the timed stages, in samples.
#[derive(Clone, Copy, Debug, PartialEq, Eq)]
pub struct StageLengths {
    pub attack: u64,
    pub hold: u64,
    pub decay: u64,
    pub release: u64,
}

impl StageLengths {
    /// Stages without a length: the sound is at its sustain level at once,
    /// and ends with the note.
    pub fn new() -> (lengths: StageLengths)
        ensures
            lengths == (StageLengths { attack: 0, hold: 0, decay: 0, release: 0 }),
    {
        StageLengths { attack: 0, hold: 0, decay: 0, release: 0 }
    }
}

impl Default for StageLengths {
    fn default() -> (lengths: StageLengths)
        ensures
            lengths == (StageLengths { attack: 0, hold: 0, decay: 0, release: 0 }),
    {
        StageLengths::new()
    }
}

/// Where an envelope stands.
#[derive(Clone, Copy, Debug, PartialEq, Eq)]
pub enum Phase {
    /// Idle, and ready for a note.
    Ready,
    /// The note is held, and so many samples have been made since it began.
    /// The count stops at its largest value.
    Held(u64),
    /// The note is off, and so many samples have been made since.
    Released(u64),
    /// Idle after a note. Only a reset makes the envelope ready again.
    Spent,
}

/// `samples` more samples on a count that stops at its largest value.
pub open spec fn count_after(count: u64, samples: usize) -> u64 {
    if count + samples > u64::MAX {
        u64::MAX
    } else {
        (count + samples) as u64
    }
}

/// The envelope of one voice.
#[derive(Clone, Copy, Debug, PartialEq, Eq)]
pub struct AdsrEnvelope {
    pub lengths: StageLengths,
    pub phase: Phase,
}

impl AdsrEnvelope {
    /// A released envelope has not outlasted its release.
    pub open spec fn wf(self) -> bool {
        self.phase matches Phase::Released(since) ==> since < self.lengths.release
    }

    /// The stage that the next sample falls into.
    pub open spec fn spec_stage(&self) -> Stage {
        match self.phase {
            Phase::Ready => Stage::Idle,
            Phase::Spent => Stage::Idle,
            Phase::Released(_) => Stage::Release,
            Phase::Held(t) => if t < self.lengths.attack {
                Stage::Attack
            } else if t < self.lengths.attack + self.lengths.hold {
                Stage::Hold
            } else if t < self.lengths.attack + self.lengths.hold + self.lengths.decay {
                Stage::Decay
            } else {
                Stage::Sustain
            },
        }
    }

    /// The number of samples already made in the stage that the next sample
    /// falls into; zero in a stage without a length.
    pub open spec fn spec_position(self) -> int {
        match self.phase {
            Phase::Ready => 0,
            Phase::Spent => 0,
            Phase::Released(since) => since as int,
            Phase::Held(t) => match self.spec_stage() {
                Stage::Attack => t as int,
                Stage::Hold => t - self.lengths.attack,
                Stage::Decay => t - self.lengths.attack - self.lengths.hold,
                _ => 0,
            },
        }
    }

    /// The number of samples the current stage still has to make, for a stage
    /// with a length. A release that has outlasted its length has none left.
    pub open spec fn spec_remaining(self) -> Option<int> {
        match self.spec_stage() {
            Stage::Attack => Some(self.lengths.attack - self.spec_position()),
            Stage::Hold => Some(self.lengths.hold - self.spec_position()),
            Stage::Decay => Some(self.lengths.decay - self.spec_position()),
            Stage::Release => Some(
                if self.spec_position() < self.lengths.release {
                    self.lengths.release - self.spec_position()
                } else {
                    0
                },
            ),
            _ => None,
        }
    }

    /// The envelope makes sound: it is in any stage but idle.
    pub open spec fn sounds(self) -> bool {
        self.spec_stage() != Stage::Idle
    }

    /// The note is held.
    pub open spec fn held(self) -> bool {
        self.phase is Held
    }

    /// A note begins. Only an envelope that is ready answers.
    pub open spec fn after_note_on(self) -> Self {
        if self.phase == Phase::Ready {
            AdsrEnvelope { phase: Phase::Held(0), ..self }
        } else {
            self
        }
    }

    /// The note ends. A held envelope goes into release, or falls idle at
    /// once where the release has no length.
    pub open spec fn after_note_off(self) -> Self {
        if self.phase is Held {
            if self.lengths.release == 0 {
                AdsrEnvelope { phase: Phase::Spent, ..self }
            } else {
                AdsrEnvelope { phase: Phase::Released(0), ..self }
            }
        } else {
            self
        }
    }

    /// `samples` samples have been made. A release that has run its length
    /// leaves the envelope idle.
    pub open spec fn after(self, samples: usize) -> Self {
        match self.phase {
            Phase::Held(t) => AdsrEnvelope { phase: Phase::Held(count_after(t, samples)), ..self },
            Phase::Released(since) => if since + samples >= self.lengths.release {
                AdsrEnvelope { phase: Phase::Spent, ..self }
            } else {
                AdsrEnvelope { phase: Phase::Released((since + samples) as u64), ..self }
            },
            _ => self,
        }
    }

    /// The gain has fallen below the floor during release: the envelope falls
    /// idle.
    pub open spec fn after_floor(self) -> Self {
        if self.phase is Released {
            AdsrEnvelope { phase: Phase::Spent, ..self }
        } else {
            self
        }
    }

    /// An idle envelope with the given stage lengths, ready for a note.
    pub fn new(lengths: StageLengths) -> (e: AdsrEnvelope)
        ensures
            e == (AdsrEnvelope { lengths, phase: Phase::Ready }),
            e.wf(),
    {
        AdsrEnvelope { lengths, phase: Phase::Ready }
    }

    /// The stage that the next sample falls into.
    #[verifier::when_used_as_spec(spec_stage)]
    pub fn stage(&self) -> (stage: Stage)
        ensures
            stage == self.spec_stage(),
    {
        match self.phase {
            Phase::Ready => Stage::Idle,
            Phase::Spent => Stage::Idle,
            Phase::Released(_) => Stage::Release,
            Phase::Held(t) => {
                if t < self.lengths.attack {
                    Stage::Attack
                } else if t - self.lengths.attack < self.lengths.hold {
                    Stage::Hold
                } else if t - self.lengths.attack - self.lengths.hold < self.lengths.decay {
                    Stage::Decay
                } else {
                    Stage::Sustain
                }
            },
        }
    }

    /// The number of samples already made in the current stage; zero in a
    /// stage without a length.
    pub fn position(&self) -> (position: u64)
        ensures
            position == self.spec_position(),
    {
        match self.phase {
            Phase::Ready => 0,
            Phase::Spent => 0,
            Phase::Released(since) => since,
            Phase::Held(t) => {
                if t < self.lengths.attack {
                    t
                } else if t - self.lengths.attack < self.lengths.hold {
                    t - self.lengths.attack
                } else if t - self.lengths.attack - self.lengths.hold < self.lengths.decay {
                    t - self.lengths.attack - self.lengths.hold
                } else {
                    0
                }
            },
        }
    }

    /// The number of samples the current stage still has to make, for a stage
    /// with a length.
    pub fn remaining(&self) -> (left: Option<u64>)
        ensures
            match left {
                Some(n) => self.spec_remaining() == Some(n as int),
                None => self.spec_remaining() is None,
            },
            self.wf() ==> (left matches Some(n) ==> n > 0),
    {
        match self.phase {
            Phase::Ready => None,
            Phase::Spent => None,
            Phase::Released(since) => {
                if since < self.lengths.release {
                    Some(self.lengths.release - since)
                } else {
                    Some(0)
                }
            },
            Phase::Held(t) => {
                if t < self.lengths.attack {
                    Some(self.lengths.attack - t)
                } else if t - self.lengths.attack < self.lengths.hold {
                    Some(self.lengths.hold - (t - self.lengths.attack))
                } else if t - self.lengths.attack - self.lengths.hold < self.lengths.decay {
                    Some(self.lengths.decay - (t - self.lengths.attack - self.lengths.hold))
                } else {
                    None
                }
            },
        }
    }

    /// Whether the envelope makes sound: it is in any stage but idle.
    pub fn is_playing_or_releasing(&self) -> (b: bool)
        ensures
            b == self.sounds(),
            b == (self.spec_stage() != Stage::Idle),
    {
        match self.phase {
            Phase::Held(_) => true,
            Phase::Released(_) => true,
            _ => false,
        }
    }

    /// Whether the note is held.
    pub fn is_held(&self) -> (b: bool)
        ensures
            b == self.held(),
    {
        match self.phase {
            Phase::Held(_) => true,
            _ => false,
        }
    }

    /// Begins a note, if the envelope is ready for one.
    pub fn note_on(&mut self)
        ensures
            *final(self) == old(self).after_note_on(),
            old(self).wf() ==> final(self).wf(),
    {
        match self.phase {
            Phase::Ready => {
                self.phase = Phase::Held(0);
            },
            _ => {},
        }
    }

    /// Ends the note, if one is held.
    pub fn note_off(&mut self)
        ensures
            *final(self) == old(self).after_note_off(),
            final(self).wf() || !old(self).wf(),
    {
        match self.phase {
            Phase::Held(_) => {
                if self.lengths.release == 0 {
                    self.phase = Phase::Spent;
                } else {
                    self.phase = Phase::Released(0);
                }
            },
            _ => {},
        }
    }

    /// Counts `samples` samples. A release that has run its length leaves the
    /// envelope idle.
    pub fn advance(&mut self, samples: usize)
        ensures
            *final(self) == old(self).after(samples),
            final(self).wf(),
    {
        match self.phase {
            Phase::Held(t) => {
                self.phase = Phase::Held(t.saturating_add(samples as u64));
            },
            Phase::Released(since) => {
                if since >= self.lengths.release || samples as u64 >= self.lengths.release - since {
                    self.phase = Phase::Spent;
                } else {
                    self.phase = Phase::Released(since + samples as u64);
                }
            },
            _ => {},
        }
    }

    /// Ends a release whose gain has fallen below the floor.
    pub fn floor_reached(&mut self)
        ensures
            *final(self) == old(self).after_floor(),
            final(self).wf(),
    {
        match self.phase {
            Phase::Released(_) => {
                self.phase = Phase::Spent;
            },
            _ => {},
        }
    }

    /// Makes the envelope ready for a new note.
    pub fn reset(&mut self)
        ensures
            *final(self) == (AdsrEnvelope { phase: Phase::Ready, ..*old(self) }),
            final(self).wf(),
    {
        self.phase = Phase::Ready;
    }
}

/// The envelope makes sound exactly while a note is held or released.
pub proof fn lemma_sounding(e: AdsrEnvelope)
    ensures
        e.sounds() <==> (e.phase is Held || e.phase is Released),
{
}

/// An envelope that has fallen idle after a note stays idle, whatever happens
/// to it short of a reset.
pub proof fn lemma_spent_stays_idle(e: AdsrEnvelope, samples: usize)
    requires
        e.phase == Phase::Spent,
    ensures
        e.after_note_on() == e,
        e.after_note_off() == e,
        e.after(samples) == e,
        e.after_floor() == e,
        !e.sounds(),
{
}

/// Counting samples in two blocks is counting them in one.
pub proof fn lemma_advance_adds(e: AdsrEnvelope, a: usize, b: usize)
    requires
        a + b <= usize::MAX,
    ensures
        e.after(a).after(b) == e.after((a + b) as usize),
{
}

/// While the note is held the stages follow each other in order, each for
/// its length: the stage of the next sample is decided by the number of
/// samples made since the note began.
pub proof fn lemma_held_stages(lengths: StageLengths, t: u64)
    ensures
        ({
            let e = AdsrEnvelope { lengths, phase: Phase::Held(t) };
            &&& e.spec_stage() == Stage::Attack <==> t < lengths.attack
            &&& e.spec_stage() == Stage::Hold <==> lengths.attack <= t < lengths.attack
                + lengths.hold
            &&& e.spec_stage() == Stage::Decay <==> lengths.attack + lengths.hold <= t
                < lengths.attack + lengths.hold + lengths.decay
            &&& e.spec_stage() == Stage::Sustain <==> lengths.attack + lengths.hold + lengths.decay
                <= t
        }),
{
}

/// A stage lasts for the samples it still has to make.
pub proof fn lemma_stage_lasts(e: AdsrEnvelope, samples: usize)
    requires
        e.wf(),
        e.spec_remaining() matches Some(left) && samples < left,
    ensures
        e.after(samples).spec_stage() == e.spec_stage(),
{
}

/// A release ends after its length at the latest.
pub proof fn lemma_release_ends(e: AdsrEnvelope, samples: usize)
    requires
        e.phase is Released,
        samples >= e.lengths.release,
    ensures
        e.after(samples).phase == Phase::Spent,
        !e.after(samples).sounds(),
{
}

} // verus!
