use vstd::prelude::*;
use crate::program::{Param as ProgramParam, Program};

verus! {

/// How a parameter is being modulated, as the editor shows it.
#[derive(Clone, Copy, Debug)]
pub struct ParamModulation {
    /// The modulation applied to the parameter by the audio thread.
    pub value: i64,
    /// The source being configured, while the knob is in configuration mode.
    pub config_source: Option<usize>,
    /// The amount of modulation from the source being configured.
    pub config_amount: i64,
    /// The modulation applied from all the connected sources together.
    pub total_amount: i64,
}

impl Default for ParamModulation {
    fn default() -> (r: ParamModulation)
        ensures
            r == (ParamModulation { value: 0, config_source: None, config_amount: 0, total_amount: 0 }),
    {
        ParamModulation { value: 0, config_source: None, config_amount: 0, total_amount: 0 }
    }
}

/// A parameter as the editor shows it: its range, its value and its modulation.
#[derive(Clone, Copy, Debug)]
pub struct Param {
    pub param_ref: usize,
    pub origin: i64,
    pub min: i64,
    pub max: i64,
    pub step: i64,
    pub value: i64,
    pub modulation: ParamModulation,
}

/// The editor's view of a patch parameter, starting at its initial value
/// with no modulation.
pub open spec fn param_from_spec(param_ref: usize, param: ProgramParam) -> Param {
    Param {
        param_ref,
        origin: param.values.origin,
        min: param.values.min,
        max: param.values.max,
        step: param.values.resolution,
        value: param.values.initial_value,
        modulation: ParamModulation { value: 0, config_source: None, config_amount: 0, total_amount: 0 },
    }
}

impl Param {
    /// The editor's view of the parameter at `param_ref` of `program`.
    pub fn new(program: &Program, param_ref: usize) -> (r: Param)
        requires
            program.resolves_param(param_ref),
        ensures
            r == param_from_spec(param_ref, program.params@[param_ref as int]),
    {
        let param = program.get_param(param_ref).unwrap();
        Param::from(param_ref, param)
    }

    pub fn from(param_ref: usize, param: &ProgramParam) -> (r: Param)
        ensures
            r == param_from_spec(param_ref, *param),
    {
        Param {
            param_ref,
            origin: param.values.origin,
            min: param.values.min,
            max: param.values.max,
            step: param.values.resolution,
            value: param.values.initial_value,
            modulation: ParamModulation::default(),
        }
    }

    pub fn with_origin(self, origin: i64) -> (r: Param)
        ensures
            r == (Param { origin, ..self }),
    {
        let mut p = self;
        p.origin = origin;
        p
    }
}

/// The modulation a knob draws around its value.
#[derive(Clone, Copy, Debug)]
pub struct KnobModulation {
    pub value: i64,
    /// Present only while a source is being configured.
    pub config_amount: Option<i64>,
    pub total_amount: i64,
}

/// What a knob shows and edits, with the parameter it stands for.
#[derive(Clone, Copy, Debug)]
pub struct KnobData {
    pub origin: i64,
    pub min: i64,
    pub max: i64,
    pub step: i64,
    pub value: i64,
    pub modulation: KnobModulation,
    pub context: Param,
}

/// The knob that shows `data`.
pub open spec fn knob_of(data: Param) -> KnobData {
    KnobData {
        origin: data.origin,
        min: data.min,
        max: data.max,
        step: data.step,
        value: data.value,
        modulation: KnobModulation {
            value: data.modulation.value,
            config_amount: if data.modulation.config_source.is_some() {
                Some(data.modulation.config_amount)
            } else {
                None
            },
            total_amount: data.modulation.total_amount,
        },
        context: data,
    }
}

/// `data` after a knob edit: the value and the configured amount come back
/// from the knob; the rest is read-only for it.
pub open spec fn edited_by(data: Param, knob: KnobData) -> Param {
    Param {
        value: knob.value,
        modulation: ParamModulation {
            config_amount: match knob.modulation.config_amount {
                Some(a) => a,
                None => data.modulation.config_amount,
            },
            ..data.modulation
        },
        ..data
    }
}

/// Presents a parameter as knob data, and takes the knob's edits back.
pub struct KnobDataFromParam;

impl KnobDataFromParam {
    pub fn create_knob_data_from_param(data: &Param) -> (r: KnobData)
        ensures
            r == knob_of(*data),
    {
        let config_amount = match data.modulation.config_source {
            Some(_) => Some(data.modulation.config_amount),
            None => None,
        };
        KnobData {
            origin: data.origin,
            min: data.min,
            max: data.max,
            step: data.step,
            value: data.value,
            modulation: KnobModulation {
                value: data.modulation.value,
                config_amount,
                total_amount: data.modulation.total_amount,
            },
            context: *data,
        }
    }

    /// Copies the knob's editable fields back into `data`.
    pub fn store_knob_data(&self, data: &mut Param, knob: &KnobData)
        ensures
            *final(data) == edited_by(*old(data), *knob),
    {
        data.value = knob.value;
        data.modulation.config_amount = match knob.modulation.config_amount {
            Some(a) => a,
            None => data.modulation.config_amount,
        };
    }

    /// Calls `f` on the knob data of `data`.
    pub fn with<V, F: FnOnce(&KnobData) -> V>(&self, data: &Param, f: F) -> (r: V)
        requires
            f.requires((&knob_of(*data),)),
        ensures
            f.ensures((&knob_of(*data),), r),
    {
        let knob_data = Self::create_knob_data_from_param(data);
        f(&knob_data)
    }
}

} // verus!
