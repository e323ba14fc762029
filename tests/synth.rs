use kiro_synth::event::{Event, Message};
use kiro_synth::program::{Modulator, Param, ParamValues, Program, Signal, Source};
use kiro_synth::synth::{Synth, SynthGlobals};
use kiro_synth::voice::VoiceState;
use ringbuf::{Producer, RingBuffer};

fn program() -> Program {
    let values = ParamValues { origin: 0, min: 0, max: 1000, resolution: 1, initial_value: 900 };
    let param = Param {
        id: 1,
        signal: Signal::new(900, 10),
        values,
        modulators: vec![Modulator { source: 0, amount: 0 }, Modulator { source: 1, amount: 5 }],
    };
    let other = Param { id: 2, signal: Signal::new(0, 10), values, modulators: vec![] };
    Program::new(vec![param, other], vec![Source { id: 10 }, Source { id: 11 }, Source { id: 12 }])
}

fn synth(voices: usize, release_step: u8) -> (Producer<Event>, Synth) {
    let (producer, consumer) = RingBuffer::<Event>::new(16).split();
    let synth = Synth::new(48000, consumer, program(), SynthGlobals::new(0), voices, release_step);
    (producer, synth)
}

fn send(producer: &mut Producer<Event>, message: Message) {
    assert!(producer.push(Event::new(0, message)).is_ok());
}

fn note_on(key: u8, velocity: u8) -> Message {
    Message::NoteOn { key, velocity }
}

fn assert_partition(synth: &Synth, voices: usize) {
    let mut seen = vec![0usize; voices];
    for i in synth.active_voices().into_iter().chain(synth.free_voices().into_iter()) {
        assert!(i < voices);
        seen[i] += 1;
    }
    assert!(seen.iter().all(|&c| c == 1));
}

#[test]
fn new_synth_has_every_voice_free() {
    let (_producer, synth) = synth(4, 10);
    assert_eq!(synth.active_voices(), Vec::<usize>::new());
    assert_eq!(synth.free_voices(), vec![3, 2, 1, 0]);
    assert_eq!(synth.sample_rate(), 48000);
    assert_eq!(synth.voice(0).unwrap().state, VoiceState::Idle);
    assert!(synth.voice(4).is_none());
    assert_partition(&synth, 4);
}

#[test]
fn three_note_ons_on_two_voices_drop_the_third() {
    let (mut producer, mut synth) = synth(2, 10);
    send(&mut producer, note_on(60, 100));
    send(&mut producer, note_on(62, 100));
    send(&mut producer, note_on(64, 100));
    synth.prepare();
    let active = synth.active_voices();
    assert_eq!(active.len(), 2);
    let keys: Vec<u8> = active.iter().map(|&i| synth.voice(i).unwrap().key).collect();
    assert_eq!(keys, vec![60, 62]);
    assert!(synth.free_voices().is_empty());
    assert_partition(&synth, 2);
}

#[test]
fn note_on_takes_top_of_free_stack() {
    let (_producer, mut synth) = synth(4, 10);
    synth.apply_message(note_on(60, 90));
    assert_eq!(synth.active_voices(), vec![0]);
    assert_eq!(synth.free_voices(), vec![3, 2, 1]);
    let v = synth.voice(0).unwrap();
    assert_eq!((v.key, v.velocity, v.level, v.state), (60, 90, 90, VoiceState::Active));
    assert_eq!(synth.voice(1).unwrap().state, VoiceState::Idle);
}

#[test]
fn note_on_with_no_free_voice_changes_nothing() {
    let (_producer, mut synth) = synth(1, 10);
    synth.apply_message(note_on(60, 90));
    synth.apply_message(note_on(61, 50));
    assert_eq!(synth.active_voices(), vec![0]);
    assert!(synth.free_voices().is_empty());
    let v = synth.voice(0).unwrap();
    assert_eq!((v.key, v.velocity), (60, 90));
}

#[test]
fn note_off_releases_every_voice_of_its_key() {
    let (_producer, mut synth) = synth(4, 10);
    synth.apply_message(note_on(60, 90));
    synth.apply_message(note_on(62, 90));
    synth.apply_message(note_on(60, 80));
    synth.apply_message(Message::NoteOff { key: 60, velocity: 0 });
    assert_eq!(synth.voice(0).unwrap().state, VoiceState::Releasing);
    assert_eq!(synth.voice(1).unwrap().state, VoiceState::Active);
    assert_eq!(synth.voice(2).unwrap().state, VoiceState::Releasing);
    assert_eq!(synth.voice(3).unwrap().state, VoiceState::Idle);
    assert_eq!(synth.active_voices(), vec![0, 1, 2]);
}

#[test]
fn process_sums_active_voices() {
    let (_producer, mut synth) = synth(4, 10);
    assert_eq!(synth.process(), (0, 0));
    synth.apply_message(note_on(60, 50));
    synth.apply_message(note_on(64, 70));
    assert_eq!(synth.process(), (120, 120));
    synth.apply_message(Message::NoteOff { key: 64, velocity: 0 });
    assert_eq!(synth.process(), (110, 110));
    assert_eq!(synth.process(), (100, 100));
}

#[test]
fn finished_voice_is_recycled_once_and_reused_next() {
    let (_producer, mut synth) = synth(3, 100);
    synth.apply_message(note_on(60, 100));
    synth.apply_message(note_on(62, 100));
    synth.apply_message(note_on(64, 100));
    synth.apply_message(Message::NoteOff { key: 60, velocity: 0 });
    assert_eq!(synth.process(), (200, 200));
    assert_eq!(synth.voice(0).unwrap().state, VoiceState::Off);
    assert_eq!(synth.active_voices(), vec![2, 1]);
    assert_eq!(synth.free_voices(), vec![0]);
    assert_partition(&synth, 3);
    assert_eq!(synth.process(), (200, 200));
    assert_eq!(synth.free_voices(), vec![0]);
    synth.apply_message(note_on(67, 40));
    assert_eq!(synth.active_voices(), vec![2, 1, 0]);
    assert_eq!(synth.voice(0).unwrap().key, 67);
}

#[test]
fn release_decays_before_recycling() {
    let (_producer, mut synth) = synth(2, 30);
    synth.apply_message(note_on(60, 70));
    synth.apply_message(Message::NoteOff { key: 60, velocity: 0 });
    assert_eq!(synth.process(), (40, 40));
    assert_eq!(synth.process(), (10, 10));
    assert_eq!(synth.active_voices(), vec![0]);
    assert_eq!(synth.process(), (0, 0));
    assert!(synth.active_voices().is_empty());
    assert_eq!(synth.free_voices(), vec![1, 0]);
}

#[test]
fn direct_param_set_is_not_clamped() {
    let (mut producer, mut synth) = synth(2, 10);
    send(&mut producer, Message::Param { param_ref: 0, value: 700 });
    synth.prepare();
    assert_eq!(synth.program().params[0].signal.get(), 700);
    send(&mut producer, Message::Param { param_ref: 0, value: 1500 });
    synth.prepare();
    assert_eq!(synth.program().params[0].signal.get(), 1500);
}

#[test]
fn param_change_clamps_to_range() {
    let (mut producer, mut synth) = synth(2, 10);
    send(&mut producer, Message::ParamChange { param_ref: 0, change: 500 });
    synth.prepare();
    assert_eq!(synth.program().params[0].signal.get(), 1000);
    send(&mut producer, Message::ParamChange { param_ref: 0, change: -1300 });
    synth.prepare();
    assert_eq!(synth.program().params[0].signal.get(), 0);
    send(&mut producer, Message::ParamChange { param_ref: 0, change: 250 });
    synth.prepare();
    assert_eq!(synth.program().params[0].signal.get(), 250);
}

#[test]
fn unresolved_param_handle_is_ignored() {
    let (mut producer, mut synth) = synth(2, 10);
    send(&mut producer, Message::Param { param_ref: 7, value: 1 });
    send(&mut producer, Message::ParamChange { param_ref: 7, change: 1 });
    synth.prepare();
    assert_eq!(synth.program().params[0].signal.get(), 900);
    assert_eq!(synth.program().params[1].signal.get(), 0);
}

#[test]
fn modulation_amount_updates_existing_routing_only() {
    let (mut producer, mut synth) = synth(2, 10);
    send(&mut producer, Message::ModulationAmount { param_ref: 0, source_ref: 1, amount: 42 });
    synth.prepare();
    let mods = &synth.program().params[0].modulators;
    assert_eq!((mods[0].source, mods[0].amount), (0, 0));
    assert_eq!((mods[1].source, mods[1].amount), (1, 42));
}

#[test]
fn modulation_amount_without_routing_changes_nothing() {
    let (mut producer, mut synth) = synth(2, 10);
    send(&mut producer, Message::ModulationAmount { param_ref: 0, source_ref: 2, amount: 42 });
    send(&mut producer, Message::ModulationAmount { param_ref: 0, source_ref: 9, amount: 42 });
    send(&mut producer, Message::ModulationAmount { param_ref: 5, source_ref: 1, amount: 42 });
    send(&mut producer, Message::ModulationAmount { param_ref: 1, source_ref: 1, amount: 42 });
    synth.prepare();
    let mods = &synth.program().params[0].modulators;
    assert_eq!(mods.len(), 2);
    assert_eq!((mods[0].amount, mods[1].amount), (0, 5));
    assert!(synth.program().params[1].modulators.is_empty());
}

#[test]
fn events_apply_in_order() {
    let (mut producer, mut synth) = synth(2, 10);
    send(&mut producer, Message::Param { param_ref: 0, value: 100 });
    send(&mut producer, Message::ParamChange { param_ref: 0, change: 50 });
    send(&mut producer, note_on(60, 10));
    send(&mut producer, Message::NoteOff { key: 60, velocity: 0 });
    synth.prepare();
    assert_eq!(synth.program().params[0].signal.get(), 150);
    assert_eq!(synth.voice(0).unwrap().state, VoiceState::Releasing);
    synth.prepare();
    assert_eq!(synth.active_voices(), vec![0]);
}

#[test]
fn process_advances_param_smoothing_once() {
    let (mut producer, mut synth) = synth(2, 10);
    send(&mut producer, Message::Param { param_ref: 0, value: 925 });
    synth.prepare();
    synth.process();
    assert_eq!(synth.program().params[0].signal.smoothed, 910);
    synth.process();
    assert_eq!(synth.program().params[0].signal.smoothed, 920);
    synth.process();
    assert_eq!(synth.program().params[0].signal.smoothed, 925);
}

#[test]
fn pool_stays_partitioned() {
    let (_producer, mut synth) = synth(5, 50);
    for key in 0..7u8 {
        synth.apply_message(note_on(key, 100));
        assert_partition(&synth, 5);
    }
    synth.apply_message(Message::NoteOff { key: 1, velocity: 0 });
    synth.apply_message(Message::NoteOff { key: 3, velocity: 0 });
    for _ in 0..3 {
        synth.process();
        assert_partition(&synth, 5);
    }
    assert_eq!(synth.active_voices().len(), 3);
    assert_eq!(synth.free_voices().len(), 2);
}
