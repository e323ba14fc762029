use kiro_synth::program::{clamp, Modulator, Param, ParamValues, Program, Signal, Source};

fn param(value: i64) -> Param {
    Param {
        id: 3,
        signal: Signal::new(value, 4),
        values: ParamValues { origin: 0, min: -100, max: 100, resolution: 1, initial_value: 0 },
        modulators: vec![
            Modulator { source: 2, amount: 1 },
            Modulator { source: 0, amount: 2 },
            Modulator { source: 2, amount: 3 },
        ],
    }
}

fn program() -> Program {
    Program::new(vec![param(10)], vec![Source { id: 1 }, Source { id: 2 }, Source { id: 3 }])
}

#[test]
fn clamp_limits_both_ends() {
    assert_eq!(clamp(1400, 0, 1000), 1000);
    assert_eq!(clamp(-5, 0, 1000), 0);
    assert_eq!(clamp(700, 0, 1000), 700);
    assert_eq!(clamp(i64::MAX as i128 + 10, 0, i64::MAX), i64::MAX);
    assert_eq!(clamp(5, 10, 0), 10);
}

#[test]
fn signal_slews_towards_value() {
    let mut s = Signal::new(0, 3);
    s.set(7);
    assert_eq!(s.get(), 7);
    s.update();
    assert_eq!(s.smoothed, 3);
    s.update();
    assert_eq!(s.smoothed, 6);
    s.update();
    assert_eq!(s.smoothed, 7);
    s.set(-2);
    s.update();
    assert_eq!(s.smoothed, 4);
}

#[test]
fn change_param_value_saturates_at_extremes() {
    let mut p = program();
    p.params[0].values.max = i64::MAX;
    p.params[0].signal.set(i64::MAX - 1);
    p.change_param_value(0, i64::MAX);
    assert_eq!(p.params[0].signal.get(), i64::MAX);
    p.change_param_value(0, i64::MIN);
    assert_eq!(p.params[0].signal.get(), -1);
}

#[test]
fn first_matching_modulator_is_updated() {
    let mut p = program();
    p.set_modulation_amount(0, 2, 9);
    let amounts: Vec<i64> = p.params[0].modulators.iter().map(|m| m.amount).collect();
    assert_eq!(amounts, vec![9, 2, 3]);
    p.set_modulation_amount(0, 1, 9);
    let amounts: Vec<i64> = p.params[0].modulators.iter().map(|m| m.amount).collect();
    assert_eq!(amounts, vec![9, 2, 3]);
}

#[test]
fn lookups_resolve_by_position() {
    let p = program();
    assert_eq!(p.get_param(0).unwrap().id, 3);
    assert!(p.get_param(1).is_none());
    assert_eq!(p.get_source(2).unwrap().id, 3);
    assert!(p.get_source(3).is_none());
}

#[test]
fn update_params_smooths_every_param() {
    let mut p = Program::new(vec![param(10), param(-10)], vec![]);
    p.update_params();
    assert_eq!(p.params[0].signal.smoothed, 10);
    p.set_param_value(0, 20);
    p.set_param_value(1, -20);
    p.update_params();
    assert_eq!(p.params[0].signal.smoothed, 14);
    assert_eq!(p.params[1].signal.smoothed, -14);
}
