use kiro_synth::knob::{KnobDataFromParam, Param};
use kiro_synth::program::{Param as ProgramParam, ParamValues, Program, Signal};

fn program() -> Program {
    let p = ProgramParam {
        id: 1,
        signal: Signal::new(0, 1),
        values: ParamValues { origin: 5, min: -10, max: 20, resolution: 2, initial_value: 7 },
        modulators: vec![],
    };
    Program::new(vec![p], vec![])
}

#[test]
fn param_copies_values_from_program() {
    let p = Param::new(&program(), 0);
    assert_eq!((p.param_ref, p.origin, p.min, p.max, p.step, p.value), (0, 5, -10, 20, 2, 7));
    assert_eq!(p.modulation.config_source, None);
    assert_eq!(p.modulation.total_amount, 0);
    let q = p.with_origin(-3);
    assert_eq!((q.origin, q.value), (-3, 7));
}

#[test]
fn knob_shows_config_amount_only_while_configuring() {
    let mut p = Param::new(&program(), 0);
    p.modulation.config_amount = 4;
    let k = KnobDataFromParam::create_knob_data_from_param(&p);
    assert_eq!(k.modulation.config_amount, None);
    assert_eq!((k.min, k.max, k.value), (-10, 20, 7));
    p.modulation.config_source = Some(1);
    let k = KnobDataFromParam::create_knob_data_from_param(&p);
    assert_eq!(k.modulation.config_amount, Some(4));
}

#[test]
fn knob_edits_come_back() {
    let mut p = Param::new(&program(), 0);
    p.modulation.config_amount = 4;
    let mut k = KnobDataFromParam::create_knob_data_from_param(&p);
    k.value = 11;
    k.min = 0;
    KnobDataFromParam.store_knob_data(&mut p, &k);
    assert_eq!((p.value, p.min, p.modulation.config_amount), (11, -10, 4));
    k.modulation.config_amount = Some(9);
    KnobDataFromParam.store_knob_data(&mut p, &k);
    assert_eq!(p.modulation.config_amount, 9);
}

#[test]
fn with_hands_the_knob_data_to_the_closure() {
    let mut p = Param::new(&program(), 0);
    p.modulation.config_source = Some(0);
    p.modulation.config_amount = 3;
    let seen = KnobDataFromParam.with(&p, |k| (k.value, k.modulation.config_amount, k.context.param_ref));
    assert_eq!(seen, (7, Some(3), 0));
}
