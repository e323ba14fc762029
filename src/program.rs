use vstd::prelude::*;

verus! {

/// The lowest of two integers.
pub open spec fn min_int(a: int, b: int) -> int {
    if a <= b { a } else { b }
}

/// The highest of two integers.
pub open spec fn max_int(a: int, b: int) -> int {
    if a >= b { a } else { b }
}

/// `v` limited first from above by `hi`, then from below by `lo`.
pub open spec fn clamp_spec(v: int, lo: int, hi: int) -> int {
    max_int(min_int(v, hi), lo)
}

/// One step of slewing `current` towards `target` by at most `step`.
pub open spec fn slew_spec(current: int, target: int, step: int) -> int {
    if target > current + step {
        current + step
    } else if target < current - step {
        current - step
    } else {
        target
    }
}

/// A parameter's signal: the value last set, and the smoothed value that
/// follows it by at most `step` per sample.
#[derive(Clone, Copy, Debug)]
pub struct Signal {
    pub value: i64,
    pub smoothed: i64,
    pub step: u32,
}

impl Signal {
    pub fn new(value: i64, step: u32) -> (r: Signal)
        ensures
            r.value == value,
            r.smoothed == value,
            r.step == step,
    {
        Signal { value, smoothed: value, step }
    }

    pub fn get(&self) -> (r: i64)
        ensures
            r == self.value,
    {
        self.value
    }

    pub fn set(&mut self, value: i64)
        ensures
            *final(self) == (Signal { value, ..*old(self) }),
    {
        self.value = value;
    }

    /// The signal after one sample of smoothing.
    pub open spec fn updated(self) -> Signal {
        Signal { smoothed: slew_spec(self.smoothed as int, self.value as int, self.step as int) as i64, ..self }
    }

    pub fn update(&mut self)
        ensures
            *final(self) == old(self).updated(),
    {
        let cur = self.smoothed as i128;
        let target = self.value as i128;
        let step = self.step as i128;
        let next: i128 = if target > cur + step {
            cur + step
        } else if target < cur - step {
            cur - step
        } else {
            target
        };
        self.smoothed = next as i64;
    }
}

/// The range and defaults of a parameter.
#[derive(Clone, Copy, Debug)]
pub struct ParamValues {
    pub origin: i64,
    pub min: i64,
    pub max: i64,
    pub resolution: i64,
    pub initial_value: i64,
}

/// A routing of a modulation source into a parameter.
#[derive(Clone, Copy, Debug)]
pub struct Modulator {
    pub source: usize,
    pub amount: i64,
}

pub struct Param {
    pub id: u32,
    pub signal: Signal,
    pub values: ParamValues,
    pub modulators: Vec<Modulator>,
}

#[derive(Clone, Copy, Debug)]
pub struct Source {
    pub id: u32,
}

/// `j` is the first position in `mods` that routes `source`.
pub open spec fn is_first_match(mods: Seq<Modulator>, source: usize, j: int) -> bool {
    &&& 0 <= j < mods.len()
    &&& mods[j].source == source
    &&& forall|k: int| 0 <= k < j ==> mods[k].source != source
}

/// `mods` with the amount of the first entry that routes `source` replaced;
/// `mods` itself when no entry routes it.
pub open spec fn set_amount_spec(mods: Seq<Modulator>, source: usize, amount: i64) -> Seq<Modulator> {
    if exists|j: int| is_first_match(mods, source, j) {
        let j = choose|j: int| is_first_match(mods, source, j);
        mods.update(j, Modulator { source, amount })
    } else {
        mods
    }
}

/// `new` differs from `old` in the parameter at `param_ref` alone, if anywhere.
pub open spec fn others_kept(old: Program, new: Program, param_ref: usize) -> bool {
    &&& new.sources@ == old.sources@
    &&& new.params@.len() == old.params@.len()
    &&& forall|i: int| 0 <= i < old.params@.len() && i != param_ref ==>
        #[trigger] new.params@[i] == old.params@[i]
}

/// `new` is `old` with the signal of the parameter at `param_ref` set to
/// `value`; `old` itself when the handle does not resolve.
pub open spec fn value_set(old: Program, new: Program, param_ref: usize, value: i64) -> bool {
    &&& others_kept(old, new, param_ref)
    &&& old.resolves_param(param_ref) ==> {
        let p = old.params@[param_ref as int];
        new.params@[param_ref as int] == (Param { signal: Signal { value, ..p.signal }, ..p })
    }
}

/// `new` is `old` with the signal of the parameter at `param_ref` moved by
/// `change` and clamped into the parameter's range; `old` itself when the
/// handle does not resolve.
pub open spec fn value_changed(old: Program, new: Program, param_ref: usize, change: i64) -> bool {
    &&& others_kept(old, new, param_ref)
    &&& old.resolves_param(param_ref) ==> {
        let p = old.params@[param_ref as int];
        let v = clamp_spec(p.signal.value + change, p.values.min as int, p.values.max as int);
        new.params@[param_ref as int] == (Param { signal: Signal { value: v as i64, ..p.signal }, ..p })
    }
}

/// `new` is `old` with the amount of the modulator that routes `source_ref`
/// into the parameter at `param_ref` overwritten; `old` itself when a handle
/// does not resolve or no modulator routes that source.
pub open spec fn amount_set(old: Program, new: Program, param_ref: usize, source_ref: usize, amount: i64) -> bool {
    &&& others_kept(old, new, param_ref)
    &&& old.resolves_param(param_ref) ==> {
        let p = old.params@[param_ref as int];
        let q = new.params@[param_ref as int];
        &&& q.id == p.id
        &&& q.signal == p.signal
        &&& q.values == p.values
        &&& q.modulators@ == if old.resolves_source(source_ref) {
            set_amount_spec(p.modulators@, source_ref, amount)
        } else {
            p.modulators@
        }
    }
}

/// `new` is `old` after one sample of smoothing of every parameter.
pub open spec fn params_updated(old: Program, new: Program) -> bool {
    &&& new.sources@ == old.sources@
    &&& new.params@.len() == old.params@.len()
    &&& forall|i: int| 0 <= i < old.params@.len() ==> {
        let p = #[trigger] old.params@[i];
        new.params@[i] == (Param { signal: p.signal.updated(), ..p })
    }
}

/// A patch: a table of parameters and a table of modulation sources, each
/// addressed by its position.
pub struct Program {
    pub params: Vec<Param>,
    pub sources: Vec<Source>,
}

impl Program {
    pub fn new(params: Vec<Param>, sources: Vec<Source>) -> (r: Program)
        ensures
            r.params@ == params@,
            r.sources@ == sources@,
    {
        Program { params, sources }
    }

    pub open spec fn resolves_param(&self, param_ref: usize) -> bool {
        param_ref < self.params@.len()
    }

    pub open spec fn resolves_source(&self, source_ref: usize) -> bool {
        source_ref < self.sources@.len()
    }

    pub fn get_param(&self, param_ref: usize) -> (r: Option<&Param>)
        ensures
            self.resolves_param(param_ref) ==> r == Some(&self.params@[param_ref as int]),
            !self.resolves_param(param_ref) ==> r.is_none(),
    {
        if param_ref < self.params.len() {
            Some(&self.params[param_ref])
        } else {
            None
        }
    }

    pub fn get_source(&self, source_ref: usize) -> (r: Option<&Source>)
        ensures
            self.resolves_source(source_ref) ==> r == Some(&self.sources@[source_ref as int]),
            !self.resolves_source(source_ref) ==> r.is_none(),
    {
        if source_ref < self.sources.len() {
            Some(&self.sources[source_ref])
        } else {
            None
        }
    }

    /// Sets the signal of the parameter at `param_ref` to `value` as it is,
    /// without clamping; does nothing when the handle does not resolve.
    pub fn set_param_value(&mut self, param_ref: usize, value: i64)
        ensures
            value_set(*old(self), *final(self), param_ref, value),
    {
        if param_ref < self.params.len() {
            self.params[param_ref].signal.set(value);
        }
    }

    /// Moves the signal of the parameter at `param_ref` by `change`, clamped
    /// into the parameter's range; does nothing when the handle does not resolve.
    pub fn change_param_value(&mut self, param_ref: usize, change: i64)
        ensures
            value_changed(*old(self), *final(self), param_ref, change),
    {
        if param_ref < self.params.len() {
            let current = self.params[param_ref].signal.get();
            let min = self.params[param_ref].values.min;
            let max = self.params[param_ref].values.max;
            let value = clamp(current as i128 + change as i128, min, max);
            self.params[param_ref].signal.set(value);
        }
    }

    /// Overwrites the amount of the first modulator of the parameter at
    /// `param_ref` that routes `source_ref`. Nothing changes when either
    /// handle does not resolve or no such modulator exists.
    pub fn set_modulation_amount(&mut self, param_ref: usize, source_ref: usize, amount: i64)
        ensures
            amount_set(*old(self), *final(self), param_ref, source_ref, amount),
    {
        if source_ref < self.sources.len() && param_ref < self.params.len() {
            let n = self.params[param_ref].modulators.len();
            let mut j: usize = 0;
            while j < n
                invariant
                    j <= n,
                    param_ref < self.params@.len(),
                    source_ref < old(self).sources@.len(),
                    *self == *old(self),
                    n == self.params@[param_ref as int].modulators@.len(),
                    forall|k: int| 0 <= k < j ==>
                        (#[trigger] self.params@[param_ref as int].modulators@[k]).source != source_ref,
                decreases n - j,
            {
                if self.params[param_ref].modulators[j].source == source_ref {
                    proof {
                        let mods = self.params@[param_ref as int].modulators@;
                        assert(is_first_match(mods, source_ref, j as int));
                        assert forall|x: int| is_first_match(mods, source_ref, x) implies x == j by {
                            if x < j {
                                assert(mods[x].source != source_ref);
                            }
                            if x > j {
                                assert(mods[j as int].source != source_ref);
                            }
                        }
                    }
                    let ghost mods = self.params@[param_ref as int].modulators@;
                    self.params[param_ref].modulators[j].amount = amount;
                    assert(self.params@[param_ref as int].modulators@ =~= mods.update(
                        j as int,
                        Modulator { source: source_ref, amount },
                    ));
                    assert(set_amount_spec(mods, source_ref, amount) == mods.update(
                        j as int,
                        Modulator { source: source_ref, amount },
                    ));
                    return;
                }
                j = j + 1;
            }
        }
    }

    /// Advances the smoothing of every parameter by one sample.
    pub fn update_params(&mut self)
        ensures
            params_updated(*old(self), *final(self)),
    {
        let n = self.params.len();
        let mut i: usize = 0;
        while i < n
            invariant
                i <= n,
                n == old(self).params@.len(),
                self.sources@ == old(self).sources@,
                self.params@.len() == n,
                forall|k: int| 0 <= k < i ==> {
                    let p = #[trigger] old(self).params@[k];
                    self.params@[k] == (Param { signal: p.signal.updated(), ..p })
                },
                forall|k: int| i <= k < n ==> #[trigger] self.params@[k] == old(self).params@[k],
            decreases n - i,
        {
            self.params[i].signal.update();
            i = i + 1;
        }
    }
}

/// `v` limited first from above by `hi`, then from below by `lo`.
pub fn clamp(v: i128, lo: i64, hi: i64) -> (r: i64)
    ensures
        r == clamp_spec(v as int, lo as int, hi as int),
{
    let capped: i128 = if v <= hi as i128 { v } else { hi as i128 };
    if capped >= lo as i128 { capped as i64 } else { lo }
}

} // verus!
