//! The engine handing messages to its regions, and groups silencing them.

use sfz_engine::{Engine, EngineError, MidiMessage, Phase, RegionData, StageLengths};

const A1: u8 = 45;
const A2: u8 = 57;
const A3: u8 = 69;
const B2: u8 = 59;
const C3: u8 = 60;
const DB3: u8 = 61;
const D3: u8 = 62;
const E3: u8 = 64;
const MAX: u8 = 127;
const MIN: u8 = 0;
const HALF: i32 = 1 << 23;
const ONE: i32 = 1 << 24;

fn note_on(note: u8, velocity: u8) -> MidiMessage {
    MidiMessage::NoteOn(0, note, velocity)
}

fn note_off(note: u8, velocity: u8) -> MidiMessage {
    MidiMessage::NoteOff(0, note, velocity)
}

fn keys(lo: i32, hi: i32) -> RegionData {
    let mut rd = RegionData::default();
    rd.key_range_mut().set_hi(-1).unwrap();
    rd.key_range_mut().set_lo(lo).unwrap();
    rd.key_range_mut().set_hi(hi).unwrap();
    rd
}

fn velocities(lo: i32, hi: i32) -> RegionData {
    let mut rd = RegionData::default();
    rd.vel_range_mut().set_lo(0).unwrap();
    rd.vel_range_mut().set_hi(hi).unwrap();
    rd.vel_range_mut().set_lo(lo).unwrap();
    rd
}

fn grouped(key: i32, group: u32, off_by: u32) -> RegionData {
    let mut rd = keys(key, key);
    rd.set_group(group);
    rd.set_off_by(off_by);
    rd
}

fn halves() -> Vec<RegionData> {
    let mut lower = keys(60, 60);
    lower.random_range_mut().set_lo(0).unwrap();
    lower.random_range_mut().set_hi(HALF).unwrap();
    let mut upper = keys(60, 60);
    upper.random_range_mut().set_lo(HALF).unwrap();
    upper.random_range_mut().set_hi(ONE).unwrap();
    vec![lower, upper]
}

fn plain(regions: Vec<RegionData>) -> Vec<(RegionData, StageLengths)> {
    regions.into_iter().map(|rd| (rd, StageLengths::default())).collect()
}

fn pull_samples_engine(engine: &mut Engine, nsamples: usize) {
    engine.process(nsamples, nsamples);
}

fn playing(engine: &Engine, region: usize) -> bool {
    engine.region(region).sample().is_playing()
}

fn playing_note(engine: &Engine, region: usize, note: u8) -> bool {
    engine.region(region).sample().is_playing_note(note)
}

#[test]
fn trigger_rand() {
    let mut engine = Engine::from_region_array(plain(halves()), 1);
    for i in 0..2 {
        engine.region_mut(i).pass_midi_msg(&note_on(A3, MAX), 0);
    }
    assert!(!playing(&engine, 0));
    assert!(!playing(&engine, 1));

    let mut engine = Engine::from_region_array(plain(halves()), 1);
    for i in 0..2 {
        engine.region_mut(i).pass_midi_msg(&note_on(A3, MAX), HALF as u32);
    }
    assert!(!playing(&engine, 0));
    assert!(!playing(&engine, 1));

    let mut engine = Engine::from_region_array(plain(halves()), 1);
    for i in 0..2 {
        engine.region_mut(i).pass_midi_msg(&note_on(C3, MAX), 0);
    }
    assert!(playing_note(&engine, 0, C3));
    assert!(!playing(&engine, 1));

    let mut engine = Engine::from_region_array(plain(halves()), 1);
    for i in 0..2 {
        engine.region_mut(i).pass_midi_msg(&note_on(C3, MAX), HALF as u32);
    }
    assert!(!playing(&engine, 0));
    assert!(playing_note(&engine, 1, C3));

    let mut engine = Engine::from_region_array(plain(halves()), 1);
    engine.midi_event(&note_on(A3, MAX));
    assert!(!playing(&engine, 0) && !playing(&engine, 1));

    let mut engine = Engine::from_region_array(plain(halves()), 1);
    engine.midi_event(&note_on(C3, MAX));
    assert!(playing_note(&engine, 0, C3) ^ playing_note(&engine, 1, C3));
}

#[test]
fn note_on_off_multiple_regions_key() {
    let regions = vec![keys(57, 57), keys(60, 60), keys(58, 60), keys(60, 62)];
    let mut engine = Engine::from_region_array(plain(regions), 4);

    engine.midi_event(&note_on(A1, MAX));
    pull_samples_engine(&mut engine, 1);
    assert!(!playing(&engine, 0));
    assert!(!playing(&engine, 1));
    assert!(!playing(&engine, 2));
    assert!(!playing(&engine, 3));

    engine.midi_event(&note_on(A2, MAX));
    pull_samples_engine(&mut engine, 1);
    assert!(playing_note(&engine, 0, A2));
    assert!(!playing(&engine, 1));
    assert!(!playing(&engine, 2));
    assert!(!playing(&engine, 3));

    engine.midi_event(&note_on(DB3, MAX));
    pull_samples_engine(&mut engine, 1);
    assert!(playing_note(&engine, 0, A2));
    assert!(!playing(&engine, 1));
    assert!(!playing(&engine, 2));
    assert!(playing_note(&engine, 3, DB3));

    engine.midi_event(&note_on(C3, MAX));
    pull_samples_engine(&mut engine, 1);
    assert!(playing_note(&engine, 0, A2));
    assert!(playing_note(&engine, 1, C3));
    assert!(playing_note(&engine, 2, C3));
    assert!(playing_note(&engine, 3, C3));
    assert!(playing_note(&engine, 3, DB3));

    engine.midi_event(&note_off(A2, MAX));
    pull_samples_engine(&mut engine, 1);
    assert!(!playing(&engine, 0));
    assert!(playing_note(&engine, 1, C3));
    assert!(playing_note(&engine, 2, C3));
    assert!(playing_note(&engine, 3, C3));
    assert!(playing_note(&engine, 3, DB3));

    engine.midi_event(&note_off(DB3, MAX));
    pull_samples_engine(&mut engine, 1);
    assert!(!playing(&engine, 0));
    assert!(playing_note(&engine, 1, C3));
    assert!(playing_note(&engine, 2, C3));
    assert!(playing_note(&engine, 3, C3));
    assert!(!playing_note(&engine, 3, DB3));

    engine.midi_event(&note_on(B2, MAX));
    pull_samples_engine(&mut engine, 1);
    assert!(!playing(&engine, 0));
    assert!(playing_note(&engine, 1, C3));
    assert!(playing_note(&engine, 2, B2));
    assert!(playing_note(&engine, 2, C3));
    assert!(playing_note(&engine, 3, C3));
    assert!(!playing_note(&engine, 3, DB3));

    engine.midi_event(&note_off(C3, MAX));
    pull_samples_engine(&mut engine, 1);
    assert!(!playing(&engine, 0));
    assert!(!playing(&engine, 1));
    assert!(playing_note(&engine, 2, B2));
    assert!(!playing(&engine, 3));

    engine.midi_event(&note_off(B2, MAX));
    pull_samples_engine(&mut engine, 1);
    assert!(!playing(&engine, 0));
    assert!(!playing(&engine, 1));
    assert!(!playing(&engine, 2));
    assert!(!playing(&engine, 3));
}

#[test]
fn note_on_off_multiple_regions_vel() {
    let regions = vec![velocities(30, 30), velocities(50, 50), velocities(40, 50), velocities(50, 60)];
    let mut engine = Engine::from_region_array(plain(regions), 4);

    engine.midi_event(&note_on(C3, 20));
    pull_samples_engine(&mut engine, 1);
    assert!(!playing(&engine, 0));
    assert!(!playing(&engine, 1));
    assert!(!playing(&engine, 2));
    assert!(!playing(&engine, 3));

    engine.midi_event(&note_on(C3, 30));
    pull_samples_engine(&mut engine, 1);
    assert!(playing_note(&engine, 0, C3));
    assert!(!playing(&engine, 1));
    assert!(!playing(&engine, 2));
    assert!(!playing(&engine, 3));

    engine.midi_event(&note_on(C3, 55));
    pull_samples_engine(&mut engine, 1);
    assert!(playing_note(&engine, 0, C3));
    assert!(!playing(&engine, 1));
    assert!(!playing(&engine, 2));
    assert!(playing_note(&engine, 3, C3));

    engine.midi_event(&note_on(C3, 50));
    pull_samples_engine(&mut engine, 1);
    assert!(playing_note(&engine, 0, C3));
    assert!(playing_note(&engine, 1, C3));
    assert!(playing_note(&engine, 2, C3));
    assert!(playing_note(&engine, 3, C3));

    engine.midi_event(&note_off(C3, MIN));
    pull_samples_engine(&mut engine, 1);
    assert!(!playing(&engine, 0));
    assert!(!playing(&engine, 1));
    assert!(!playing(&engine, 2));
    assert!(!playing(&engine, 3));

    engine.midi_event(&note_on(C3, 45));
    pull_samples_engine(&mut engine, 1);
    assert!(!playing(&engine, 0));
    assert!(!playing(&engine, 1));
    assert!(playing_note(&engine, 2, C3));
    assert!(!playing(&engine, 3));

    engine.midi_event(&note_off(C3, MIN));
    pull_samples_engine(&mut engine, 1);
    assert!(!playing(&engine, 0));
    assert!(!playing(&engine, 1));
    assert!(!playing(&engine, 2));
    assert!(!playing(&engine, 3));
}

#[test]
fn region_group() {
    let regions = vec![
        grouped(57, 0, 0),
        grouped(59, 1, 0),
        grouped(60, 2, 0),
        grouped(62, 0, 2),
        grouped(64, 1, 0),
    ];
    let mut engine = Engine::from_region_array(plain(regions), 4);

    engine.midi_event(&note_on(A2, MAX));
    pull_samples_engine(&mut engine, 1);
    assert!(playing(&engine, 0));
    assert!(!playing(&engine, 1));
    assert!(!playing(&engine, 2));
    assert!(!playing(&engine, 3));
    assert!(!playing(&engine, 4));

    engine.midi_event(&note_on(D3, MAX));
    pull_samples_engine(&mut engine, 1);
    assert!(playing(&engine, 0));
    assert!(!playing(&engine, 1));
    assert!(!playing(&engine, 2));
    assert!(playing(&engine, 3));
    assert!(!playing(&engine, 4));

    engine.midi_event(&note_on(B2, MAX));
    pull_samples_engine(&mut engine, 1);
    assert!(playing(&engine, 0));
    assert!(playing(&engine, 1));
    assert!(!playing(&engine, 2));
    assert!(playing(&engine, 3));
    assert!(!playing(&engine, 4));

    engine.midi_event(&note_on(C3, MAX));
    pull_samples_engine(&mut engine, 1);
    assert!(playing(&engine, 0));
    assert!(playing(&engine, 1));
    assert!(playing(&engine, 2));
    assert!(!playing(&engine, 3));
    assert!(!playing(&engine, 4));

    engine.midi_event(&note_on(E3, MAX));
    pull_samples_engine(&mut engine, 1);
    assert!(playing(&engine, 0));
    assert!(!playing(&engine, 1));
    assert!(playing(&engine, 2));
    assert!(!playing(&engine, 3));
    assert!(playing(&engine, 4));
}

#[test]
fn test_unreasonable_process_calls_zero_length_buffer() {
    let mut engine = Engine::from_region_array(plain(vec![RegionData::default()]), 16);

    engine.midi_event(&note_on(C3, 44));

    engine.process(0, 0);
    assert_eq!(engine.region(0).frames_since_note_on(), 0);
    assert!(playing_note(&engine, 0, C3));
}

#[test]
fn engine_fade_out() {
    let rd = RegionData::default();
    // A release of a fifth of a second at a hundred frames per second.
    let lengths = StageLengths { attack: 0, hold: 0, decay: 0, release: 20 };

    let mut engine = Engine::from_region_array(vec![(rd, lengths)], 24);

    engine.midi_event(&note_on(C3, MAX));

    pull_samples_engine(&mut engine, 16);

    assert!(!engine.fadeout_finished());

    assert!(playing_note(&engine, 0, C3));
    assert!(!engine.region(0).sample().is_releasing_note(C3));

    engine.fadeout();

    assert!(!playing_note(&engine, 0, C3));
    assert!(engine.region(0).sample().is_releasing_note(C3));

    pull_samples_engine(&mut engine, 24);

    assert!(!playing_note(&engine, 0, C3));
    assert!(engine.region(0).sample().is_releasing_note(C3));
    assert!(!engine.fadeout_finished());

    pull_samples_engine(&mut engine, 24);

    assert!(!playing_note(&engine, 0, C3));
    assert!(!engine.region(0).sample().is_releasing_note(C3));

    assert!(engine.fadeout_finished());
}

#[test]
fn empty_buffer_on_either_side_renders_nothing() {
    let mut engine = Engine::from_region_array(plain(vec![RegionData::default()]), 2);
    engine.process(0, 8);
    engine.process(8, 0);
    assert_eq!(engine.region(0).frames_since_note_on(), 0);
    engine.process(8, 8);
    assert_eq!(engine.region(0).frames_since_note_on(), 8);
}

#[test]
fn blocks_add_up() {
    let mut whole = Engine::from_region_array(plain(vec![RegionData::default(), keys(10, 20)]), 2);
    let mut parts = Engine::from_region_array(plain(vec![RegionData::default(), keys(10, 20)]), 2);
    whole.midi_event_with_draw(&note_on(C3, 90), 7);
    parts.midi_event_with_draw(&note_on(C3, 90), 7);
    whole.process(8, 8);
    for block in [3usize, 0, 4, 1] {
        parts.process(block, block);
    }
    for i in 0..2 {
        assert_eq!(whole.region(i).frames_since_note_on(), 8);
        assert_eq!(parts.region(i).frames_since_note_on(), 8);
        assert_eq!(whole.region(i).sample().voice(0), parts.region(i).sample().voice(0));
    }
}

#[test]
fn same_history_same_state() {
    let history = [
        (note_on(C3, 100), 3u32),
        (MidiMessage::ControlChange(0, 64, 127), 9),
        (note_off(C3, 0), 1),
        (note_on(D3, 20), 1 << 23),
        (MidiMessage::ControlChange(0, 64, 0), 0),
        (note_on(C3, 1), 0),
    ];
    let mut a = Engine::from_region_array(plain(halves()), 3);
    let mut b = Engine::from_region_array(plain(halves()), 3);
    for (msg, draw) in history.iter() {
        a.midi_event_with_draw(msg, *draw);
        a.process(5, 5);
    }
    for (msg, draw) in history.iter() {
        b.midi_event_with_draw(msg, *draw);
        b.process(5, 5);
    }
    for i in 0..2 {
        let (ra, rb) = (a.region(i), b.region(i));
        assert_eq!(ra.sample().voice_count(), rb.sample().voice_count());
        for v in 0..ra.sample().voice_count() {
            assert_eq!(ra.sample().voice(v), rb.sample().voice(v));
        }
        assert_eq!(ra.frames_since_note_on(), rb.frames_since_note_on());
        assert_eq!(ra.last_note_on(), rb.last_note_on());
    }
    assert_eq!(a.region(0).sample().voice_count(), 1);
    assert_eq!(a.region(0).sample().voice(0).unwrap().velocity, 1);
    assert_eq!(a.region(1).sample().voice_count(), 0);
}

#[test]
fn fadeout_leaves_no_held_note() {
    let mut engine = Engine::from_region_array(plain(vec![RegionData::default(), keys(60, 62)]), 8);
    engine.midi_event(&note_on(C3, MAX));
    engine.midi_event(&note_on(D3, MAX));
    engine.midi_event(&note_on(E3, MAX));
    assert!(!engine.fadeout_finished());
    engine.fadeout();
    for region in 0..2 {
        for note in 0..=255u8 {
            assert!(!playing_note(&engine, region, note));
        }
    }
    assert!(!engine.fadeout_finished());
    pull_samples_engine(&mut engine, 1);
    assert!(engine.fadeout_finished());
}

#[test]
fn dummy_engine_is_silent() {
    let mut engine = Engine::dummy(4);
    assert_eq!(engine.regions_len(), 0);
    assert!(engine.fadeout_finished());
    engine.midi_event(&note_on(C3, MAX));
    engine.process(16, 16);
    engine.fadeout();
    engine.voice_finished(0, 0);
    assert!(engine.fadeout_finished());
}

#[test]
fn new_passes_the_load_error_on() {
    let failed: Result<Vec<(RegionData, StageLengths)>, EngineError> =
        Err(EngineError::UnspecifiedSndFileError("piano.wav".to_string()));
    match Engine::new(failed, 4) {
        Err(EngineError::UnspecifiedSndFileError(name)) => assert_eq!(name, "piano.wav"),
        _ => panic!("the load error is passed on"),
    }
    let loaded = Engine::new(Ok(plain(vec![RegionData::default(), keys(1, 2)])), 4);
    match loaded {
        Ok(engine) => {
            assert_eq!(engine.regions_len(), 2);
            assert_eq!(engine.region(1).params().key_range().lo(), Some(1));
            assert_eq!(engine.region(1).sample().max_voices(), 4);
        }
        Err(_) => panic!("loaded regions make an engine"),
    }
}

#[test]
fn group_zero_sets_nothing_off() {
    let regions = vec![grouped(57, 0, 0), grouped(59, 0, 0)];
    let mut engine = Engine::from_region_array(plain(regions), 2);
    engine.midi_event(&note_on(A2, MAX));
    engine.midi_event(&note_on(B2, MAX));
    assert!(playing_note(&engine, 0, A2));
    assert!(playing_note(&engine, 1, B2));
}

#[test]
fn firing_region_is_not_silenced_by_its_own_group() {
    let regions = vec![grouped(57, 1, 0), grouped(57, 1, 0), grouped(59, 0, 1)];
    let mut engine = Engine::from_region_array(plain(regions), 2);
    engine.midi_event(&note_on(B2, MAX));
    assert!(playing_note(&engine, 2, B2));
    engine.midi_event(&note_on(A2, MAX));
    assert!(playing_note(&engine, 0, A2));
    assert!(playing_note(&engine, 1, A2));
    assert!(!playing_note(&engine, 2, B2));
    assert!(engine.region(2).sample().is_releasing_note(B2));
}

#[test]
fn report_for_a_missing_region_or_serial_changes_nothing() {
    let mut engine = Engine::from_region_array(plain(vec![RegionData::default()]), 2);
    engine.midi_event(&note_on(C3, MAX));
    engine.voice_finished(1, 0);
    engine.voice_finished(0, 17);
    assert!(playing_note(&engine, 0, C3));
    engine.voice_finished(0, 0);
    assert!(!playing(&engine, 0));
}

#[test]
fn blocks_of_any_size_sound_the_same() {
    let lengths = StageLengths { attack: 4, hold: 0, decay: 0, release: 10 };
    let make = || {
        let mut engine =
            Engine::from_region_array(vec![(RegionData::default(), lengths), (keys(60, 60), lengths)], 4);
        engine.midi_event_with_draw(&note_on(C3, 90), 0);
        engine.midi_event_with_draw(&note_on(D3, 80), 0);
        engine.midi_event_with_draw(&note_off(C3, 0), 0);
        engine
    };
    let sounding = |engine: &Engine, region: usize| {
        let table = engine.region(region).sample();
        (0..table.voice_count())
            .map(|i| table.voice(i).unwrap())
            .filter(|v| v.envelope.is_playing_or_releasing())
            .collect::<Vec<_>>()
    };
    for blocks in [vec![3usize, 4, 5], vec![10, 2], vec![0, 1, 0, 11], vec![6, 6]] {
        let mut whole = make();
        let mut parts = make();
        whole.process(12, 12);
        for block in blocks {
            parts.process(block, block);
        }
        for region in 0..2 {
            assert_eq!(sounding(&whole, region), sounding(&parts, region));
            assert_eq!(
                whole.region(region).frames_since_note_on(),
                parts.region(region).frames_since_note_on()
            );
        }
        assert_eq!(sounding(&whole, 0).len(), 1);
        assert_eq!(sounding(&whole, 0)[0].envelope.phase, Phase::Held(12));
        assert_eq!(sounding(&whole, 1).len(), 0);
    }
}

#[test]
fn fadeout_finishes_within_two_blocks() {
    let long = StageLengths { attack: 0, hold: 0, decay: 0, release: 20 };
    let short = StageLengths { attack: 9, hold: 9, decay: 9, release: 3 };
    let mut engine =
        Engine::from_region_array(vec![(RegionData::default(), long), (RegionData::default(), short)], 4);
    engine.midi_event(&note_on(C3, MAX));
    engine.midi_event(&note_on(E3, MAX));
    engine.process(7, 7);
    engine.fadeout();
    assert!(!engine.fadeout_finished());
    engine.process(20, 20);
    assert!(!engine.fadeout_finished());
    engine.process(1, 1);
    assert!(engine.fadeout_finished());
}

#[test]
fn floor_report_reaches_the_region() {
    let lengths = StageLengths { attack: 0, hold: 0, decay: 0, release: 50 };
    let mut engine = Engine::from_region_array(vec![(RegionData::default(), lengths)], 2);
    engine.midi_event(&note_on(C3, MAX));
    engine.midi_event(&note_off(C3, 0));
    engine.process(5, 5);
    engine.floor_reached(3, 0);
    assert_eq!(engine.region(0).sample().voice(0).unwrap().envelope.phase, Phase::Released(5));
    engine.floor_reached(0, 0);
    assert_eq!(engine.region(0).sample().voice(0).unwrap().envelope.phase, Phase::Spent);
    assert!(!engine.fadeout_finished());
    engine.process(1, 1);
    assert!(engine.fadeout_finished());
}
