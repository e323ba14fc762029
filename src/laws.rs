use vstd::prelude::*;
use crate::event::Message;
use crate::program::{is_first_match, Modulator};
use crate::synth::{message_applied, pool_kept, process_done, sounding, Synth};
use crate::voice::VoiceState;

verus! {

/// In every well-formed synth each index of the pool is either active or
/// free, and none is both.
pub proof fn lemma_voice_pool_partition(s: &Synth)
    requires
        s.wf(),
    ensures
        forall|i: usize| #![auto] i < s.voices().len() <==> (s.active().contains(i) || s.free().contains(i)),
        forall|i: usize| #![auto] !(s.active().contains(i) && s.free().contains(i)),
{
    assert forall|i: usize| #![auto] s.active().contains(i) || s.free().contains(i) implies i < s.voices().len() by {
        if s.active().contains(i) {
            let k = choose|k: int| 0 <= k < s.active().len() && s.active()[k] == i;
        } else {
            let k = choose|k: int| 0 <= k < s.free().len() && s.free()[k] == i;
        }
    }
}

/// A note-on while some voice is free moves exactly one index, the top of
/// the free stack, to the active indices, and starts that voice with the
/// note's key and velocity; no other voice changes.
pub proof fn lemma_note_on_allocates(old: Synth, new: Synth, key: u8, velocity: u8)
    requires
        old.wf(),
        old.free().len() > 0,
        message_applied(old, new, Message::NoteOn { key, velocity }),
    ensures
        ({
            let i = old.free().last();
            &&& old.free().contains(i)
            &&& !old.active().contains(i)
            &&& new.free() == old.free().drop_last()
            &&& new.active() == old.active().push(i)
            &&& new.voices()[i as int].state == VoiceState::Active
            &&& new.voices()[i as int].key == key
            &&& new.voices()[i as int].velocity == velocity
            &&& forall|j: int| 0 <= j < old.voices().len() && j != i ==> #[trigger] new.voices()[j] == old.voices()[j]
        }),
{
    let i = old.free().last();
    assert(old.free()[old.free().len() - 1] == i);
    assert(i < old.voices().len());
}

/// A note-on while no voice is free changes neither index list nor any voice.
pub proof fn lemma_note_on_when_full(old: Synth, new: Synth, key: u8, velocity: u8)
    requires
        old.wf(),
        old.free().len() == 0,
        message_applied(old, new, Message::NoteOn { key, velocity }),
    ensures
        pool_kept(old, new),
        new.program_view() == old.program_view(),
{
}

/// A note-off for `key` puts every active voice that plays `key` in its
/// release phase and leaves every other voice as it was.
pub proof fn lemma_note_off_releases(old: Synth, new: Synth, key: u8, velocity: u8)
    requires
        old.wf(),
        message_applied(old, new, Message::NoteOff { key, velocity }),
    ensures
        forall|i: usize| i < old.voices().len() && #[trigger] old.active().contains(i) && old.voices()[i as int].key == key
            ==> new.voices()[i as int].state == VoiceState::Releasing && new.voices()[i as int].key == key,
        forall|i: usize| i < old.voices().len() && !(#[trigger] old.active().contains(i) && old.voices()[i as int].key == key)
            ==> new.voices()[i as int] == old.voices()[i as int],
        new.active() == old.active(),
        new.free() == old.free(),
{
    assert forall|i: usize| i < old.voices().len() && #[trigger] old.active().contains(i)
        implies sounding(old.voices()[i as int]) by {
        let k = choose|k: int| 0 <= k < old.active().len() && old.active()[k] == i;
    }
}

/// Setting the amount of a routing that exists overwrites that modulator's
/// amount alone; every other modulator and parameter is kept.
pub proof fn lemma_modulation_amount_existing(
    old: Synth,
    new: Synth,
    param_ref: usize,
    source_ref: usize,
    amount: i64,
    j: int,
)
    requires
        old.wf(),
        old.program_view().resolves_param(param_ref),
        old.program_view().resolves_source(source_ref),
        is_first_match(old.program_view().params@[param_ref as int].modulators@, source_ref, j),
        message_applied(old, new, Message::ModulationAmount { param_ref, source_ref, amount }),
    ensures
        ({
            let p = old.program_view().params@[param_ref as int];
            let q = new.program_view().params@[param_ref as int];
            &&& q.id == p.id
            &&& q.signal == p.signal
            &&& q.values == p.values
            &&& q.modulators@.len() == p.modulators@.len()
            &&& q.modulators@[j] == (Modulator { source: source_ref, amount })
            &&& forall|k: int| 0 <= k < p.modulators@.len() && k != j ==> #[trigger] q.modulators@[k] == p.modulators@[k]
        }),
        forall|i: int| 0 <= i < old.program_view().params@.len() && i != param_ref ==>
            #[trigger] new.program_view().params@[i] == old.program_view().params@[i],
        new.program_view().sources@ == old.program_view().sources@,
        pool_kept(old, new),
{
    let mods = old.program_view().params@[param_ref as int].modulators@;
    assert forall|x: int| is_first_match(mods, source_ref, x) implies x == j by {
        if x < j {
            assert(mods[x].source != source_ref);
        }
        if x > j {
            assert(mods[j].source != source_ref);
        }
    }
}

/// Setting the amount of a routing that does not exist, or through a handle
/// that does not resolve, leaves the patch as it was.
pub proof fn lemma_modulation_amount_missing(
    old: Synth,
    new: Synth,
    param_ref: usize,
    source_ref: usize,
    amount: i64,
)
    requires
        old.wf(),
        !(old.program_view().resolves_param(param_ref)
            && old.program_view().resolves_source(source_ref)
            && exists|j: int| is_first_match(old.program_view().params@[param_ref as int].modulators@, source_ref, j)),
        message_applied(old, new, Message::ModulationAmount { param_ref, source_ref, amount }),
    ensures
        new.program_view().sources@ == old.program_view().sources@,
        new.program_view().params@.len() == old.program_view().params@.len(),
        forall|i: int| 0 <= i < old.program_view().params@.len() ==> {
            let p = #[trigger] old.program_view().params@[i];
            let q = new.program_view().params@[i];
            q.id == p.id && q.signal == p.signal && q.values == p.values && q.modulators@ == p.modulators@
        },
        pool_kept(old, new),
{
}

/// A voice that turns off while a sample is rendered leaves the active
/// indices and stands exactly once on the free stack, above every index that
/// was free before; the top of the stack, which the next note-on takes, is
/// then a voice recycled by that sample.
pub proof fn lemma_finished_voice_recycled(old: Synth, new: Synth, out: (i64, i64), i: usize)
    requires
        old.wf(),
        new.wf(),
        process_done(old, new, out),
        i < old.voices().len(),
        old.active().contains(i),
        old.voices()[i as int].advanced().spec_is_off(),
    ensures
        !new.active().contains(i),
        exists|k: int| #![auto] old.free().len() <= k < new.free().len() && new.free()[k] == i
            && forall|m: int| 0 <= m < new.free().len() && new.free()[m] == i ==> m == k,
        new.free().len() > old.free().len(),
        old.active().contains(new.free().last()),
        new.voices()[new.free().last() as int].spec_is_off(),
{
    let f = new.free();
    let f0 = old.free();
    assert(new.free().contains(i));
    let k = choose|k: int| 0 <= k < f.len() && f[k] == i;
    if k < f0.len() {
        assert(f.subrange(0, f0.len() as int)[k] == f0[k]);
        assert(f0.contains(i));
        lemma_voice_pool_partition(&old);
    }
    let top = f[f.len() - 1];
    assert(f.contains(top));
    assert(top < new.voices().len());
    assert(new.voices()[top as int] == crate::synth::voice_after_process(old.voices(), old.active(), top as int));
}

} // verus!
