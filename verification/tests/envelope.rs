//! The stages of the envelope, the frames of a sample, and what errors say.

use sfz_engine::{
    frame_count, frame_slots, AdsrEnvelope, EngineError, Phase, RegionData, Stage, StageLengths,
};

fn lengths(attack: u64, hold: u64, decay: u64, release: u64) -> StageLengths {
    StageLengths { attack, hold, decay, release }
}

fn stages(envelope: &mut AdsrEnvelope, samples: usize) -> Vec<(Stage, u64)> {
    let mut seen = Vec::new();
    for _ in 0..samples {
        seen.push((envelope.stage(), envelope.position()));
        envelope.advance(1);
    }
    seen
}

#[test]
fn stages_follow_each_other_for_their_lengths() {
    let mut envelope = AdsrEnvelope::new(lengths(2, 3, 4, 5));
    assert_eq!(envelope.stage(), Stage::Idle);
    assert!(!envelope.is_playing_or_releasing());
    envelope.advance(10);
    assert_eq!(envelope.phase, Phase::Ready);

    envelope.note_on();
    assert!(envelope.is_playing_or_releasing());
    assert_eq!(
        stages(&mut envelope, 12),
        vec![
            (Stage::Attack, 0),
            (Stage::Attack, 1),
            (Stage::Hold, 0),
            (Stage::Hold, 1),
            (Stage::Hold, 2),
            (Stage::Decay, 0),
            (Stage::Decay, 1),
            (Stage::Decay, 2),
            (Stage::Decay, 3),
            (Stage::Sustain, 0),
            (Stage::Sustain, 0),
            (Stage::Sustain, 0),
        ]
    );
    assert_eq!(envelope.remaining(), None);

    envelope.note_off();
    assert_eq!(envelope.remaining(), Some(5));
    assert_eq!(
        stages(&mut envelope, 8),
        vec![
            (Stage::Release, 0),
            (Stage::Release, 1),
            (Stage::Release, 2),
            (Stage::Release, 3),
            (Stage::Release, 4),
            (Stage::Idle, 0),
            (Stage::Idle, 0),
            (Stage::Idle, 0),
        ]
    );
    assert!(!envelope.is_playing_or_releasing());
}

#[test]
fn spent_envelope_needs_a_reset() {
    let mut envelope = AdsrEnvelope::new(lengths(0, 0, 0, 0));
    envelope.note_on();
    assert_eq!(envelope.stage(), Stage::Sustain);
    envelope.note_on();
    assert_eq!(envelope.phase, Phase::Held(0));
    envelope.note_off();
    assert_eq!(envelope.phase, Phase::Spent);
    assert_eq!(envelope.stage(), Stage::Idle);

    envelope.note_on();
    envelope.note_off();
    envelope.floor_reached();
    envelope.advance(3);
    assert_eq!(envelope.phase, Phase::Spent);

    envelope.reset();
    assert_eq!(envelope.phase, Phase::Ready);
    envelope.note_on();
    assert_eq!(envelope.phase, Phase::Held(0));
}

#[test]
fn blocks_of_any_size_count_the_same() {
    let mut whole = AdsrEnvelope::new(lengths(100, 50, 25, 40));
    let mut parts = whole;
    whole.note_on();
    parts.note_on();
    whole.advance(160);
    for block in [1usize, 99, 0, 50, 10] {
        parts.advance(block);
    }
    assert_eq!(whole.phase, Phase::Held(160));
    assert_eq!(parts.phase, Phase::Held(160));
    assert_eq!((whole.stage(), whole.position()), (Stage::Decay, 10));
    assert_eq!(whole.remaining(), Some(15));

    whole.note_off();
    parts.note_off();
    whole.advance(39);
    parts.advance(20);
    parts.advance(19);
    assert_eq!(whole.phase, Phase::Released(39));
    assert_eq!(parts.phase, Phase::Released(39));
    whole.advance(1);
    assert_eq!(whole.phase, Phase::Spent);
    parts.advance(usize::MAX);
    assert_eq!(parts.phase, Phase::Spent);
}

#[test]
fn floor_ends_a_release_early() {
    let mut envelope = AdsrEnvelope::new(lengths(4, 0, 0, 20));
    envelope.note_on();
    envelope.floor_reached();
    assert_eq!(envelope.phase, Phase::Held(0));
    envelope.advance(2);
    assert_eq!((envelope.stage(), envelope.remaining()), (Stage::Attack, Some(2)));
    envelope.note_off();
    envelope.advance(7);
    assert_eq!((envelope.stage(), envelope.position()), (Stage::Release, 7));
    envelope.floor_reached();
    assert_eq!(envelope.stage(), Stage::Idle);
    assert_eq!(envelope.lengths, lengths(4, 0, 0, 20));
}

#[test]
fn held_count_stops_at_its_largest_value() {
    let mut envelope = AdsrEnvelope::new(lengths(1, 1, 1, 1));
    envelope.note_on();
    envelope.advance(usize::MAX);
    envelope.advance(usize::MAX);
    assert_eq!(envelope.phase, Phase::Held(u64::MAX));
    assert_eq!(envelope.stage(), Stage::Sustain);
}

#[test]
fn frames_of_an_interleaved_buffer() {
    assert_eq!(frame_count(0), 0);
    assert_eq!(frame_count(1), 0);
    assert_eq!(frame_count(6), 3);
    assert_eq!(frame_count(7), 3);
    assert_eq!(frame_slots(0, 6), Some((0, 1)));
    assert_eq!(frame_slots(2, 6), Some((4, 5)));
    assert_eq!(frame_slots(3, 6), None);
    assert_eq!(frame_slots(3, 7), None);
    assert_eq!(frame_slots(0, 0), None);
    assert_eq!(frame_slots(0, 1), None);
    assert_eq!(frame_slots(usize::MAX, usize::MAX), None);
    assert_eq!(
        frame_slots(usize::MAX / 2 - 1, usize::MAX),
        Some((usize::MAX - 3, usize::MAX - 2))
    );
}

#[test]
fn errors_say_what_failed() {
    assert_eq!(
        EngineError::ParserError("Unknown key: foo".to_string()).message(),
        "Unknown key: foo"
    );
    assert_eq!(EngineError::SndFileError("no such file".to_string()).message(), "no such file");
    assert_eq!(EngineError::IOError("denied".to_string()).message(), "denied");
    assert_eq!(
        EngineError::UnspecifiedSndFileError("rel1.wav".to_string()).message(),
        "Unspecified error from sndfile while reading rel1.wav"
    );
}

#[test]
fn sample_path_uses_the_separator_given() {
    let mut rd = RegionData::default();
    assert_eq!(rd.sample_path('/'), "");
    rd.set_sample("48khz24bit\\A0v1.wav");
    assert_eq!(rd.sample_path('/'), "48khz24bit/A0v1.wav");
    assert_eq!(rd.sample_path('\\'), "48khz24bit\\A0v1.wav");
    rd.set_sample("a\\b\\\\c/d\u{e9}");
    assert_eq!(rd.sample_path(':'), "a:b::c/d\u{e9}");
    assert_eq!(rd.sample(), "a\\b\\\\c/d\u{e9}");
}
