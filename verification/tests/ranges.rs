//! Ranges, settings and the set of notes.

use sfz_engine::{
    ControlValRange, NoteRange, NoteSet, Opcode, RandomRange, RangeError, RegionData, Trigger,
    VelRange, RANDOM_UNIT,
};

#[test]
fn vel_range_keeps_its_order() {
    let mut r = VelRange::default();
    assert_eq!((r.lo(), r.hi()), (0, 127));
    assert_eq!(r.set_hi(42), Ok(()));
    assert_eq!(r.set_lo(23), Ok(()));
    assert_eq!((r.lo(), r.hi()), (23, 42));
    assert!(r.covering(23) && r.covering(42) && r.covering(30));
    assert!(!r.covering(22) && !r.covering(43));

    assert_eq!(
        r.set_hi(22),
        Err(RangeError::FlippedRange { opcode: Opcode::HiVel, value: 22, bound: 23 })
    );
    assert_eq!(
        r.set_lo(43),
        Err(RangeError::FlippedRange { opcode: Opcode::LoVel, value: 43, bound: 42 })
    );
    assert_eq!(
        r.set_hi(128),
        Err(RangeError::OutOfRange { opcode: Opcode::HiVel, lo: 0, hi: 127, value: 128 })
    );
    assert_eq!(
        r.set_lo(-1),
        Err(RangeError::OutOfRange { opcode: Opcode::LoVel, lo: 0, hi: 127, value: -1 })
    );
    assert_eq!(
        r.set_hi(300),
        Err(RangeError::OutOfRange { opcode: Opcode::HiVel, lo: 0, hi: 127, value: 300 })
    );
    assert_eq!((r.lo(), r.hi()), (23, 42));
    assert_eq!(r.set_hi(23), Ok(()));
    assert_eq!((r.lo(), r.hi()), (23, 23));
}

#[test]
fn note_range_ends_can_be_switched_off() {
    let mut r = NoteRange::default();
    assert_eq!((r.lo(), r.hi()), (Some(0), Some(127)));
    assert_eq!(r.set_hi(42), Ok(()));
    assert_eq!(r.set_lo(23), Ok(()));
    assert!(r.covering(23) && r.covering(42));
    assert!(!r.covering(22) && !r.covering(43));

    assert_eq!(
        r.set_hi(22),
        Err(RangeError::FlippedRange { opcode: Opcode::HiKey, value: 22, bound: 23 })
    );
    assert_eq!(
        r.set_lo(43),
        Err(RangeError::FlippedRange { opcode: Opcode::LoKey, value: 43, bound: 42 })
    );
    assert_eq!(
        r.set_hi(128),
        Err(RangeError::OutOfRange { opcode: Opcode::HiKey, lo: -1, hi: 127, value: 128 })
    );
    assert_eq!(
        r.set_lo(-2),
        Err(RangeError::OutOfRange { opcode: Opcode::LoKey, lo: -1, hi: 127, value: -2 })
    );
    assert_eq!((r.lo(), r.hi()), (Some(23), Some(42)));

    assert_eq!(r.set_hi(-1), Ok(()));
    assert_eq!((r.lo(), r.hi()), (Some(23), None));
    assert!(!r.covering(23) && !r.covering(30));
    assert_eq!(r.set_lo(100), Ok(()));
    assert_eq!(r.set_lo(-1), Ok(()));
    assert_eq!((r.lo(), r.hi()), (None, None));
    assert_eq!(r.set_hi(5), Ok(()));
    assert!(!r.covering(5));
    assert_eq!(r.set_lo(5), Ok(()));
    assert!(r.covering(5));
}

#[test]
fn control_range_starts_switched_off() {
    let mut r = ControlValRange::default();
    assert_eq!((r.lo(), r.hi()), (None, None));
    assert!(!r.covering(0));
    assert_eq!(r.set_hi(127), Ok(()));
    assert!(!r.covering(64));
    assert_eq!(r.set_lo(63), Ok(()));
    assert!(r.covering(63) && r.covering(127) && !r.covering(62));

    assert_eq!(
        r.set_hi(62),
        Err(RangeError::FlippedRange { opcode: Opcode::OnHiCc, value: 62, bound: 63 })
    );
    assert_eq!(
        r.set_lo(128),
        Err(RangeError::OutOfRange { opcode: Opcode::OnLoCc, lo: 0, hi: 127, value: 128 })
    );
    assert_eq!(
        r.set_hi(128),
        Err(RangeError::OutOfRange { opcode: Opcode::OnHiCc, lo: 0, hi: 127, value: 128 })
    );
    assert_eq!(r.set_hi(100), Ok(()));
    assert_eq!(
        r.set_lo(101),
        Err(RangeError::FlippedRange { opcode: Opcode::OnLoCc, value: 101, bound: 100 })
    );
    assert_eq!((r.lo(), r.hi()), (Some(63), Some(100)));
    assert_eq!(r.set_lo(-7), Ok(()));
    assert_eq!((r.lo(), r.hi()), (None, Some(100)));
    assert!(!r.covering(80));
}

#[test]
fn random_range_is_half_open() {
    let half = (RANDOM_UNIT / 2) as i32;
    let mut r = RandomRange::default();
    assert_eq!((r.lo(), r.hi()), (0, 0));
    assert!(r.covering(0) && r.covering(RANDOM_UNIT - 1));

    assert_eq!(r.set_hi(half), Ok(()));
    assert!(r.covering(0) && r.covering(half as u32 - 1));
    assert!(!r.covering(half as u32));

    let mut upper = RandomRange::default();
    assert_eq!(upper.set_lo(half), Ok(()));
    assert_eq!((upper.lo(), upper.hi()), (half as u32, 0));
    assert!(!upper.covering(half as u32));
    assert_eq!(upper.set_hi(RANDOM_UNIT as i32), Ok(()));
    assert!(upper.covering(half as u32) && upper.covering(RANDOM_UNIT - 1));
    assert!(!upper.covering(half as u32 - 1));

    assert_eq!(
        upper.set_hi(half - 1),
        Err(RangeError::FlippedRange { opcode: Opcode::HiRand, value: 8388607, bound: 8388608 })
    );
    assert_eq!(
        r.set_lo(half + 1),
        Err(RangeError::FlippedRange { opcode: Opcode::LoRand, value: 8388609, bound: 8388608 })
    );
    assert_eq!(
        r.set_hi(RANDOM_UNIT as i32 + 1),
        Err(RangeError::OutOfRange { opcode: Opcode::HiRand, lo: 0, hi: 16777216, value: 16777217 })
    );
    assert_eq!(
        r.set_lo(-1),
        Err(RangeError::OutOfRange { opcode: Opcode::LoRand, lo: 0, hi: 16777216, value: -1 })
    );
    assert_eq!((r.lo(), r.hi()), (0, half as u32));
    assert_eq!(r.set_lo(half), Ok(()));
    assert!(r.covering(0) && r.covering(RANDOM_UNIT));
}

#[test]
fn covering_survives_widening() {
    let mut v = VelRange::default();
    v.set_lo(40).unwrap();
    v.set_hi(50).unwrap();
    assert!(v.covering(45));
    v.set_lo(10).unwrap();
    v.set_hi(90).unwrap();
    assert!(v.covering(45));

    let mut n = NoteRange::default();
    n.set_lo(60).unwrap();
    n.set_hi(60).unwrap();
    assert!(n.covering(60));
    n.set_hi(72).unwrap();
    n.set_lo(48).unwrap();
    assert!(n.covering(60));

    let mut c = ControlValRange::default();
    c.set_lo(63).unwrap();
    c.set_hi(64).unwrap();
    assert!(c.covering(64));
    c.set_hi(127).unwrap();
    c.set_lo(0).unwrap();
    assert!(c.covering(64));

    let mut r = RandomRange::default();
    r.set_lo(100).unwrap();
    r.set_hi(200).unwrap();
    assert!(r.covering(150));
    r.set_lo(50).unwrap();
    r.set_hi(300).unwrap();
    assert!(r.covering(150));

    // A range with equal ends passes every draw; the interval that grows out
    // of it does not.
    let mut d = RandomRange::default();
    assert!(d.covering(900));
    d.set_hi(400).unwrap();
    assert!(!d.covering(900));
}

#[test]
fn region_data_setters() {
    let mut rd = RegionData::default();
    assert_eq!(rd.pitch_keycenter(), 60);
    assert_eq!(rd.trigger(), Trigger::Attack);
    assert_eq!((rd.group(), rd.off_by()), (0, 0));
    assert_eq!(rd.sample(), "");
    assert_eq!((rd.random_range().lo(), rd.random_range().hi()), (0, 0));

    assert_eq!(rd.set_pitch_keycenter(69), Ok(()));
    assert_eq!(rd.pitch_keycenter(), 69);
    assert_eq!(
        rd.set_pitch_keycenter(128),
        Err(RangeError::OutOfRange { opcode: Opcode::PitchKeycenter, lo: 0, hi: 127, value: 128 })
    );
    assert_eq!(
        rd.set_pitch_keycenter(u32::MAX),
        Err(RangeError::OutOfRange {
            opcode: Opcode::PitchKeycenter,
            lo: 0,
            hi: 127,
            value: 4294967295
        })
    );
    assert_eq!(rd.pitch_keycenter(), 69);

    assert_eq!(rd.set_tune(-100), Ok(()));
    assert_eq!(rd.tune(), -100);
    assert_eq!(
        rd.set_tune(101),
        Err(RangeError::OutOfRange { opcode: Opcode::Tune, lo: -100, hi: 100, value: 101 })
    );
    assert_eq!(
        rd.set_tune(-101),
        Err(RangeError::OutOfRange { opcode: Opcode::Tune, lo: -100, hi: 100, value: -101 })
    );
    assert_eq!(rd.tune(), -100);

    rd.set_sample("48khz24bit\\A0v1.wav");
    assert_eq!(rd.sample(), "48khz24bit\\A0v1.wav");
    rd.set_trigger(Trigger::Legato);
    assert_eq!(rd.trigger(), Trigger::Legato);
    rd.set_group(2);
    rd.set_off_by(3);
    assert_eq!((rd.group(), rd.off_by()), (2, 3));
    rd.set_veltrack_inverted(true);
    assert!(rd.veltrack_inverted());

    let copy = rd.clone();
    assert_eq!(copy.sample(), "48khz24bit\\A0v1.wav");
    assert_eq!(copy.pitch_keycenter(), 69);
}

#[test]
fn controller_ranges_are_kept_by_number() {
    let mut rd = RegionData::default();
    assert_eq!(rd.on_cc(64), None);
    assert_eq!(rd.push_on_lo_cc(64, 63), Ok(()));
    assert_eq!(rd.push_on_hi_cc(64, 127), Ok(()));
    assert_eq!(rd.push_on_hi_cc(42, 23), Ok(()));

    let pedal = rd.on_cc(64).unwrap();
    assert_eq!((pedal.lo(), pedal.hi()), (Some(63), Some(127)));
    let other = rd.on_cc(42).unwrap();
    assert_eq!((other.lo(), other.hi()), (None, Some(23)));
    assert_eq!(rd.on_cc(23), None);

    assert_eq!(
        rd.push_on_hi_cc(64, 62),
        Err(RangeError::FlippedRange { opcode: Opcode::OnHiCc, value: 62, bound: 63 })
    );
    assert_eq!(
        rd.push_on_lo_cc(7, 200),
        Err(RangeError::OutOfRange { opcode: Opcode::OnLoCc, lo: 0, hi: 127, value: 200 })
    );
    assert_eq!(rd.on_cc(7), None);
    let pedal = rd.on_cc(64).unwrap();
    assert_eq!((pedal.lo(), pedal.hi()), (Some(63), Some(127)));

    // Only the low eight bits of the controller number count.
    assert_eq!(rd.push_on_lo_cc(256 + 64, 1), Ok(()));
    assert_eq!(rd.on_cc(64).unwrap().lo(), Some(1));
    assert_eq!(rd.push_on_lo_cc(64, -1), Ok(()));
    assert_eq!(rd.on_cc(64).unwrap().lo(), None);
}

#[test]
fn note_set_holds_any_byte() {
    let mut s = NoteSet::new();
    assert!(s.is_empty());
    s.insert(0);
    s.insert(60);
    s.insert(255);
    assert!(s.contains(0) && s.contains(60) && s.contains(255));
    assert!(!s.contains(61));
    assert!(!s.is_empty());
    s.remove(60);
    s.remove(61);
    assert!(!s.contains(60));
    s.remove(0);
    assert!(!s.is_empty());
    s.remove(255);
    assert!(s.is_empty());
    s.insert(7);
    s.clear();
    assert!(s.is_empty() && !s.contains(7));
}

#[test]
fn triggers_that_sound_on_release() {
    assert_eq!(Trigger::default(), Trigger::Attack);
    assert!(Trigger::Release.on_release());
    assert!(Trigger::ReleaseKey.on_release());
    assert!(!Trigger::Attack.on_release());
    assert!(!Trigger::First.on_release());
    assert!(!Trigger::Legato.on_release());
}
