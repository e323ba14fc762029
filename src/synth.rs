use vstd::prelude::*;
use crate::channel::{pending_events, pop_event};
use crate::event::{Event, Message};
use crate::index_list::{
    index_list_get, index_list_items, index_list_len, index_list_new, index_list_pop,
    index_list_push, index_list_swap_remove, IndexList, MAX_VOICES,
};
use crate::program::{amount_set, params_updated, value_changed, value_set, Program};
use crate::voice::{Voice, VoiceState};

verus! {

/// Modulation state shared by every voice, built outside the synth.
pub struct SynthGlobals {
    pub lfo_phase: u32,
}

impl SynthGlobals {
    pub fn new(lfo_phase: u32) -> (r: SynthGlobals)
        ensures
            r.lfo_phase == lfo_phase,
    {
        SynthGlobals { lfo_phase }
    }
}

/// A voice that is playing a note.
pub open spec fn sounding(v: Voice) -> bool {
    v.state == VoiceState::Active || v.state == VoiceState::Releasing
}

/// Every item of `s` names one of `n` voices.
pub open spec fn in_pool(s: Seq<usize>, n: int) -> bool {
    forall|k: int| 0 <= k < s.len() ==> #[trigger] s[k] < n
}

/// The voice at `i` after a note-off for `key`: released when it is active
/// and plays `key`.
pub open spec fn voice_after_note_off(voices: Seq<Voice>, active: Seq<usize>, key: u8, i: int) -> Voice {
    if active.contains(i as usize) && voices[i].key == key {
        voices[i].released()
    } else {
        voices[i]
    }
}

/// The voice at `i` after one sample: advanced when it is active.
pub open spec fn voice_after_process(voices: Seq<Voice>, active: Seq<usize>, i: int) -> Voice {
    if active.contains(i as usize) {
        voices[i].advanced()
    } else {
        voices[i]
    }
}

/// The summed level of the voices whose indices below `n` lie in `s`.
pub open spec fn mix(voices: Seq<Voice>, s: Set<usize>, n: int) -> int
    decreases n,
{
    if n <= 0 {
        0
    } else {
        mix(voices, s, n - 1) + if s.contains((n - 1) as usize) { voices[n - 1].level as int } else { 0 }
    }
}

/// The synth after a note-on: the free voice on top of the stack becomes
/// active and starts the note; with no free voice nothing changes.
pub open spec fn note_on_done(old: Synth, new: Synth, key: u8, velocity: u8) -> bool {
    &&& new.program_view() == old.program_view()
    &&& if old.free().len() > 0 {
        let i = old.free().last();
        &&& new.free() == old.free().drop_last()
        &&& new.active() == old.active().push(i)
        &&& new.voices() == old.voices().update(i as int, old.voices()[i as int].started(key, velocity))
    } else {
        &&& new.free() == old.free()
        &&& new.active() == old.active()
        &&& new.voices() == old.voices()
    }
}

/// The synth after a note-off for `key`: every active voice that plays `key`
/// is released, and nothing else changes.
pub open spec fn note_off_done(old: Synth, new: Synth, key: u8) -> bool {
    &&& new.program_view() == old.program_view()
    &&& new.free() == old.free()
    &&& new.active() == old.active()
    &&& new.voices().len() == old.voices().len()
    &&& forall|i: int| 0 <= i < old.voices().len() ==>
        #[trigger] new.voices()[i] == voice_after_note_off(old.voices(), old.active(), key, i)
}

/// The synth after one sample: each active voice advances one sample, those
/// that are off move from the active indices onto the top of the free stack,
/// the patch advances its smoothing once, and the output on each channel is
/// the summed level of the voices that were active.
pub open spec fn process_done(old: Synth, new: Synth, out: (i64, i64)) -> bool {
    &&& params_updated(old.program_view(), new.program_view())
    &&& new.voices().len() == old.voices().len()
    &&& forall|i: int| 0 <= i < old.voices().len() ==>
        #[trigger] new.voices()[i] == voice_after_process(old.voices(), old.active(), i)
    &&& forall|i: usize| i < old.voices().len() ==> (#[trigger] new.active().contains(i)
        <==> old.active().contains(i) && !old.voices()[i as int].advanced().spec_is_off())
    &&& old.free().len() <= new.free().len()
    &&& new.free().subrange(0, old.free().len() as int) == old.free()
    &&& forall|k: int| old.free().len() <= k < new.free().len() ==> {
        let i = #[trigger] new.free()[k];
        old.active().contains(i) && old.voices()[i as int].advanced().spec_is_off()
    }
    &&& out.0 == mix(new.voices(), Set::new(|i: usize| old.active().contains(i)), old.voices().len() as int)
    &&& out.1 == out.0
}

/// The synth with only its patch changed.
pub open spec fn pool_kept(old: Synth, new: Synth) -> bool {
    &&& new.free() == old.free()
    &&& new.active() == old.active()
    &&& new.voices() == old.voices()
}

/// The synth after applying `m`.
pub open spec fn message_applied(old: Synth, new: Synth, m: Message) -> bool {
    match m {
        Message::NoteOn { key, velocity } => note_on_done(old, new, key, velocity),
        Message::NoteOff { key, velocity: _ } => note_off_done(old, new, key),
        Message::Param { param_ref, value } => pool_kept(old, new)
            && value_set(old.program_view(), new.program_view(), param_ref, value),
        Message::ParamChange { param_ref, change } => pool_kept(old, new)
            && value_changed(old.program_view(), new.program_view(), param_ref, change),
        Message::ModulationAmount { param_ref, source_ref, amount } => pool_kept(old, new)
            && amount_set(old.program_view(), new.program_view(), param_ref, source_ref, amount),
    }
}

/// The two synths have the same voices, index lists and patch.
pub open spec fn same_state(a: Synth, b: Synth) -> bool {
    pool_kept(a, b) && a.program_view() == b.program_view()
}

/// Each of `states` comes from the one before by applying the message at the
/// same position of `ms`.
pub open spec fn applied_in_order(states: Seq<Synth>, ms: Seq<Message>) -> bool {
    &&& states.len() == ms.len() + 1
    &&& forall|k: int| 0 <= k < ms.len() ==> message_applied(#[trigger] states[k], states[k + 1], ms[k])
}

/// Adding one voice to the mixed set, while changing that voice, adds its
/// new level to the mix.
proof fn lemma_mix_step(voices: Seq<Voice>, s: Set<usize>, n: int, x: usize, v: Voice)
    requires
        x < voices.len(),
        0 <= n <= voices.len(),
        n <= MAX_VOICES,
        !s.contains(x),
    ensures
        mix(voices.update(x as int, v), s.insert(x), n) == mix(voices, s, n) + if x < n { v.level as int } else { 0 },
    decreases n,
{
    if n > 0 {
        lemma_mix_step(voices, s, n - 1, x, v);
        let j = (n - 1) as usize;
        assert(j as int == n - 1);
        assert(s.insert(x).contains(j) <==> s.contains(j) || j == x);
    }
}

/// Nothing mixed sums to zero.
proof fn lemma_mix_empty(voices: Seq<Voice>, n: int)
    ensures
        mix(voices, Set::empty(), n) == 0,
    decreases n,
{
    if n > 0 {
        lemma_mix_empty(voices, n - 1);
    }
}

/// The mix depends on the set only through the members below `n`.
proof fn lemma_mix_ext(voices: Seq<Voice>, s: Set<usize>, t: Set<usize>, n: int)
    requires
        forall|i: usize| (i as int) < n ==> (s.contains(i) <==> t.contains(i)),
    ensures
        mix(voices, s, n) == mix(voices, t, n),
    decreases n,
{
    if n > 0 {
        lemma_mix_ext(voices, s, t, n - 1);
    }
}

/// What a swap-remove at `pos` does to a list without duplicates.
proof fn lemma_swap_remove(a: Seq<usize>, pos: int)
    requires
        a.no_duplicates(),
        0 <= pos < a.len(),
    ensures
        ({
            let b = a.update(pos, a.last()).drop_last();
            &&& b.no_duplicates()
            &&& b.len() == a.len() - 1
            &&& forall|y: usize| b.contains(y) <==> (a.contains(y) && y != a[pos])
            &&& forall|k: int| 0 <= k < b.len() && k != pos ==> b[k] == a[k]
            &&& pos < b.len() ==> b[pos] == a[a.len() - 1]
        }),
{
    let b = a.update(pos, a.last()).drop_last();
    assert forall|y: usize| b.contains(y) <==> (a.contains(y) && y != a[pos]) by {
        if b.contains(y) {
            let k = choose|k: int| 0 <= k < b.len() && b[k] == y;
            if k == pos {
                assert(a[a.len() - 1] == y);
            } else {
                assert(a[k] == y);
            }
        }
        if a.contains(y) && y != a[pos] {
            let k = choose|k: int| 0 <= k < a.len() && a[k] == y;
            if k == a.len() - 1 {
                assert(b[pos] == y);
            } else {
                assert(b[k] == y);
            }
        }
    }
}

/// The synthesis engine: a fixed pool of voices, the indices of the voices
/// that play and of those that are free, the patch and the event queue.
pub struct Synth {
    sample_rate: u32,
    events: ringbuf::Consumer<Event>,
    program: Program,
    globals: SynthGlobals,
    voices: Vec<Voice>,
    active_voices: IndexList,
    free_voices: IndexList,
}

impl Synth {
    /// The indices of the playing voices, in the order the mix visits them.
    pub closed spec fn active(&self) -> Seq<usize> {
        index_list_items(self.active_voices)
    }

    /// The indices of the free voices; the last is allocated first.
    pub closed spec fn free(&self) -> Seq<usize> {
        index_list_items(self.free_voices)
    }

    /// The voice pool.
    pub closed spec fn voices(&self) -> Seq<Voice> {
        self.voices@
    }

    /// The patch.
    pub closed spec fn program_view(&self) -> Program {
        self.program
    }

    /// The pool holds at most `MAX_VOICES` voices; every index of the pool is either
    /// active or free, never both, and never twice; the active voices sound
    /// and the free ones do not.
    pub open spec fn wf(&self) -> bool {
        &&& self.voices().len() <= MAX_VOICES
        &&& self.active().len() + self.free().len() == self.voices().len()
        &&& self.active().no_duplicates()
        &&& self.free().no_duplicates()
        &&& in_pool(self.active(), self.voices().len() as int)
        &&& in_pool(self.free(), self.voices().len() as int)
        &&& forall|i: usize| i < self.voices().len() ==> (self.active().contains(i) <==> !self.free().contains(i))
        &&& forall|k: int| 0 <= k < self.active().len() ==> sounding(#[trigger] self.voices()[self.active()[k] as int])
        &&& forall|k: int| 0 <= k < self.free().len() ==> !sounding(#[trigger] self.voices()[self.free()[k] as int])
    }

    /// Builds a pool of `voice_count` voices: every voice idle, and every
    /// index free, with index 0 on top of the free stack.
    pub fn new(
        sample_rate: u32,
        events: ringbuf::Consumer<Event>,
        program: Program,
        globals: SynthGlobals,
        voice_count: usize,
        release_step: u8,
    ) -> (r: Synth)
        requires
            voice_count <= MAX_VOICES,
        ensures
            r.voices().len() == voice_count,
            r.wf(),
            r.program_view() == program,
            r.spec_sample_rate() == sample_rate,
            r.globals_view() == globals,
            r.active() == Seq::<usize>::empty(),
            forall|k: int| 0 <= k < voice_count ==> #[trigger] r.free()[k] == voice_count - 1 - k,
            forall|i: int| 0 <= i < voice_count ==> #[trigger] r.voices()[i] == (Voice {
                key: 0,
                velocity: 0,
                level: 0,
                release_step,
                state: VoiceState::Idle,
            }),
    {
        let mut voices: Vec<Voice> = Vec::new();
        let mut free_voices = index_list_new();
        let mut index: usize = 0;
        while index < voice_count
            invariant
                index <= voice_count,
                voice_count <= MAX_VOICES,
                voices@.len() == index,
                index_list_items(free_voices).len() == index,
                forall|k: int| 0 <= k < index ==> #[trigger] index_list_items(free_voices)[k] == voice_count - 1 - k,
                forall|i: int| 0 <= i < index ==> #[trigger] voices@[i] == (Voice {
                    key: 0,
                    velocity: 0,
                    level: 0,
                    release_step,
                    state: VoiceState::Idle,
                }),
            decreases voice_count - index,
        {
            voices.push(Voice::new(release_step));
            let _ = index_list_push(&mut free_voices, voice_count - index - 1);
            index = index + 1;
        }
        let r = Synth {
            sample_rate,
            events,
            program,
            globals,
            voices,
            active_voices: index_list_new(),
            free_voices,
        };
        proof {
            let f = r.free();
            assert(r.voices() == voices@);
            assert forall|i: usize| i < voice_count implies f.contains(i) by {
                assert(f[voice_count - 1 - i] == i);
            }
            assert forall|a: int, b: int| 0 <= a < f.len() && 0 <= b < f.len() && a != b implies f[a] != f[b] by {}
        }
        r
    }

    /// Takes the free voice on top of the stack, if any; key and velocity do
    /// not steer the choice.
    fn allocate_voice(&mut self, _key: u8, _velocity: u8) -> (r: Option<usize>)
        ensures
            old(self).free().len() == 0 ==> r.is_none() && *final(self) == *old(self),
            old(self).free().len() > 0 ==> r == Some(old(self).free().last())
                && final(self).free() == old(self).free().drop_last()
                && final(self).active() == old(self).active()
                && final(self).voices() == old(self).voices()
                && final(self).program_view() == old(self).program_view(),
    {
        index_list_pop(&mut self.free_voices)
    }
    /// Starts a note on a free voice; drops it when none is free.
    fn note_on(&mut self, key: u8, velocity: u8)
        requires
            old(self).wf(),
        ensures
            final(self).wf(),
            note_on_done(*old(self), *final(self), key, velocity),
    {
        if let Some(index) = self.allocate_voice(key, velocity) {
            let ghost a0 = self.active();
            let _ = index_list_push(&mut self.active_voices, index);
            self.voices[index].note_on(key, velocity);
            proof {
                let a = self.active();
                let f = self.free();
                let f0 = old(self).free();
                assert(f0[f0.len() - 1] == index);
                assert(!a0.contains(index));
                assert forall|x: usize| x < self.voices().len() implies (a.contains(x) <==> !f.contains(x)) by {
                    if a.contains(x) && x != index {
                        let k = choose|k: int| 0 <= k < a.len() && a[k] == x;
                        assert(a0[k] == x);
                    }
                    if !a.contains(x) {
                        if a0.contains(x) {
                            let k = choose|k: int| 0 <= k < a0.len() && a0[k] == x;
                            assert(a[k] == x);
                        }
                        assert(a[a0.len() as int] == index);
                        assert(f0.contains(x));
                        let k = choose|k: int| 0 <= k < f0.len() && f0[k] == x;
                        assert(f[k] == x);
                    }
                    if f.contains(x) {
                        let k = choose|k: int| 0 <= k < f.len() && f[k] == x;
                        assert(f0[k] == x);
                        assert(x != index);
                        assert(!a0.contains(x));
                        if a.contains(x) {
                            let j = choose|j: int| 0 <= j < a.len() && a[j] == x;
                            assert(a0[j] == x);
                        }
                    }
                }
                assert forall|k: int| 0 <= k < f.len() implies !sounding(#[trigger] self.voices()[f[k] as int]) by {
                    assert(f0[k] == f[k]);
                    assert(f[k] != index);
                }
                assert forall|k: int| 0 <= k < a.len() implies sounding(#[trigger] self.voices()[a[k] as int]) by {
                    if k < a0.len() {
                        assert(a0[k] == a[k]);
                        assert(a[k] != index);
                    }
                }
            }
        }
    }

    /// Releases every active voice that plays `key`.
    fn note_off(&mut self, key: u8, _velocity: u8)
        requires
            old(self).wf(),
        ensures
            final(self).wf(),
            note_off_done(*old(self), *final(self), key),
    {
        let n = index_list_len(&self.active_voices);
        let mut pos: usize = 0;
        while pos < n
            invariant
                pos <= n,
                n == old(self).active().len(),
                old(self).wf(),
                self.wf(),
                self.program_view() == old(self).program_view(),
                self.free() == old(self).free(),
                self.active() == old(self).active(),
                self.voices().len() == old(self).voices().len(),
                forall|i: usize| i < old(self).voices().len() ==> #[trigger] self.voices()[i as int] == if old(self).active().subrange(0, pos as int).contains(i) {
                    voice_after_note_off(old(self).voices(), old(self).active(), key, i as int)
                } else {
                    old(self).voices()[i as int]
                },
            decreases n - pos,
        {
            let index = index_list_get(&self.active_voices, pos);
            proof {
                let a = old(self).active();
                assert(!a.subrange(0, pos as int).contains(index)) by {
                    if a.subrange(0, pos as int).contains(index) {
                        let s0 = a.subrange(0, pos as int);
                        let k = choose|k: int| 0 <= k < s0.len() && s0[k] == index;
                        assert(a[k] == a[pos as int]);
                    }
                }
                assert(a.contains(index));
            }
            if self.voices[index].get_key() == key {
                self.voices[index].note_off();
            }
            proof {
                let a = old(self).active();
                let s0 = a.subrange(0, pos as int);
                let s1 = a.subrange(0, pos + 1);
                assert forall|i: usize| i < old(self).voices().len() implies (#[trigger] s1.contains(i)
                    <==> s0.contains(i) || i == index) by {
                    if s1.contains(i) {
                        let k = choose|k: int| 0 <= k < s1.len() && s1[k] == i;
                        if k < pos {
                            assert(s0[k] == i);
                        }
                    }
                    if s0.contains(i) {
                        let k = choose|k: int| 0 <= k < s0.len() && s0[k] == i;
                        assert(s1[k] == i);
                    }
                    if i == index {
                        assert(s1[pos as int] == i);
                    }
                }
                assert forall|k: int| 0 <= k < self.active().len() implies sounding(#[trigger] self.voices()[self.active()[k] as int]) by {
                    if self.active()[k] == index {
                        assert(sounding(old(self).voices()[index as int]));
                    }
                }
                assert forall|k: int| 0 <= k < self.free().len() implies !sounding(#[trigger] self.voices()[self.free()[k] as int]) by {
                    assert(self.free()[k] != index);
                }
            }
            pos = pos + 1;
        }
        proof {
            assert(old(self).active().subrange(0, n as int) == old(self).active());
            assert forall|i: int| 0 <= i < old(self).voices().len() implies
                #[trigger] self.voices()[i] == voice_after_note_off(old(self).voices(), old(self).active(), key, i) by {
                assert(self.voices()[(i as usize) as int] == self.voices()[i]);
            }
        }
    }
    /// Renders one stereo sample: advances every active voice, sums their
    /// output, recycles the voices that are off and advances the smoothing of
    /// the patch once. No clipping or scaling is applied.
    pub fn process(&mut self) -> (r: (i64, i64))
        requires
            old(self).wf(),
        ensures
            final(self).wf(),
            process_done(*old(self), *final(self), r),
    {
        let mut left: i64 = 0;
        let mut right: i64 = 0;
        let mut pos: usize = 0;
        let ghost mut done: Set<usize> = Set::empty();
        let ghost a0 = self.active();
        let ghost f0 = self.free();
        let ghost v0 = self.voices();
        proof {
            lemma_mix_empty(v0, v0.len() as int);
        }
        while pos < index_list_len(&self.active_voices)
            invariant
                old(self).wf(),
                self.wf(),
                a0 == old(self).active(),
                f0 == old(self).free(),
                v0 == old(self).voices(),
                self.voices().len() == v0.len(),
                self.program_view() == old(self).program_view(),
                pos <= self.active().len(),
                forall|i: usize| #[trigger] done.contains(i) ==> i < v0.len() && a0.contains(i),
                forall|k: int| 0 <= k < pos ==> done.contains(#[trigger] self.active()[k]),
                forall|k: int| pos <= k < self.active().len() ==> !done.contains(#[trigger] self.active()[k]),
                forall|i: usize| i < v0.len() ==> #[trigger] self.voices()[i as int] == if done.contains(i) {
                    v0[i as int].advanced()
                } else {
                    v0[i as int]
                },
                forall|i: usize| i < v0.len() ==> (#[trigger] self.active().contains(i) <==> if done.contains(i) {
                    !v0[i as int].advanced().spec_is_off()
                } else {
                    a0.contains(i)
                }),
                f0.len() <= self.free().len(),
                self.free().subrange(0, f0.len() as int) == f0,
                forall|k: int| f0.len() <= k < self.free().len() ==> {
                    let i = #[trigger] self.free()[k];
                    done.contains(i) && v0[i as int].advanced().spec_is_off()
                },
                left == right,
                left == mix(self.voices(), done, v0.len() as int),
                0 <= left <= 255 * (a0.len() - (self.active().len() - pos)),
                a0.len() - (self.active().len() - pos) <= v0.len(),
            decreases self.active().len() - pos,
        {
            let index = index_list_get(&self.active_voices, pos);
            let ghost vs = self.voices();
            let ghost a = self.active();
            let ghost f = self.free();
            proof {
                assert(a.contains(index));
                assert(!done.contains(index));
                assert(a0.contains(index));
                lemma_mix_step(vs, done, v0.len() as int, index, v0[index as int].advanced());
            }
            self.voices[index].process();
            let (voice_left, voice_right) = self.voices[index].output();
            left = left + voice_left;
            right = right + voice_right;
            proof {
                assert(self.voices() == vs.update(index as int, v0[index as int].advanced()));
                done = done.insert(index);
            }
            if self.voices[index].is_off() {
                let _ = index_list_swap_remove(&mut self.active_voices, pos);
                let _ = index_list_push(&mut self.free_voices, index);
                proof {
                    lemma_swap_remove(a, pos as int);
                    let b = self.active();
                    let g = self.free();
                    assert(g[f.len() as int] == index);
                    assert(!f.contains(index));
                    assert forall|x: usize| x < v0.len() implies (b.contains(x) <==> !g.contains(x)) by {
                        if g.contains(x) && x != index {
                            let k = choose|k: int| 0 <= k < g.len() && g[k] == x;
                            assert(f[k] == x);
                        }
                        if f.contains(x) {
                            let k = choose|k: int| 0 <= k < f.len() && f[k] == x;
                            assert(g[k] == x);
                        }
                    }
                    assert forall|j: int, k: int| 0 <= j < g.len() && 0 <= k < g.len() && j != k implies g[j] != g[k] by {
                        if k == f.len() {
                            assert(f.contains(g[j]));
                        }
                        if j == f.len() {
                            assert(f.contains(g[k]));
                        }
                    }
                    assert(g.no_duplicates());
                    assert forall|k: int| 0 <= k < g.len() implies !sounding(#[trigger] self.voices()[g[k] as int]) by {
                        if k < f.len() {
                            assert(f[k] == g[k]);
                        }
                    }
                    assert forall|k: int| 0 <= k < b.len() implies sounding(#[trigger] self.voices()[b[k] as int]) by {
                        assert(b.contains(b[k]));
                        assert(a.contains(b[k]));
                        let j = choose|j: int| 0 <= j < a.len() && a[j] == b[k];
                    }
                    assert(in_pool(b, v0.len() as int)) by {
                        assert forall|k: int| 0 <= k < b.len() implies #[trigger] b[k] < v0.len() by {
                            assert(b.contains(b[k]));
                            let j = choose|j: int| 0 <= j < a.len() && a[j] == b[k];
                        }
                    }
                    assert(in_pool(g, v0.len() as int)) by {
                        assert forall|k: int| 0 <= k < g.len() implies #[trigger] g[k] < v0.len() by {
                            if k < f.len() {
                                assert(f[k] == g[k]);
                            }
                        }
                    }
                    assert(g.subrange(0, f0.len() as int) =~= f0) by {
                        assert forall|k: int| 0 <= k < f0.len() implies g[k] == f0[k] by {
                            assert(f.subrange(0, f0.len() as int)[k] == f0[k]);
                            assert(g[k] == f[k]);
                        }
                    }
                    assert forall|k: int| f0.len() <= k < g.len() implies {
                        let i = #[trigger] g[k];
                        done.contains(i) && v0[i as int].advanced().spec_is_off()
                    } by {
                        if k < f.len() {
                            assert(g[k] == f[k]);
                        }
                    }
                    assert forall|k: int| pos <= k < b.len() implies !done.contains(#[trigger] b[k]) by {
                        if k == pos {
                            assert(b[k] == a[a.len() - 1]);
                            assert(a.len() - 1 != pos);
                        } else {
                            assert(b[k] == a[k]);
                        }
                    }
                    assert forall|k: int| 0 <= k < pos implies done.contains(#[trigger] b[k]) by {
                        assert(b[k] == a[k]);
                    }
                }
            } else {
                pos = pos + 1;
                proof {
                    assert forall|k: int| 0 <= k < self.free().len() implies !sounding(#[trigger] self.voices()[self.free()[k] as int]) by {
                        assert(self.free()[k] != index);
                    }
                }
            }
        }
        proof {
            let active_set = Set::new(|i: usize| a0.contains(i));
            assert forall|i: usize| (i as int) < v0.len() implies (done.contains(i) <==> active_set.contains(i)) by {
                if a0.contains(i) && !done.contains(i) {
                    assert(self.active().contains(i));
                    let k = choose|k: int| 0 <= k < self.active().len() && self.active()[k] == i;
                }
            }
            lemma_mix_ext(self.voices(), done, active_set, v0.len() as int);
            assert forall|i: int| 0 <= i < v0.len() implies
                #[trigger] self.voices()[i] == voice_after_process(v0, a0, i) by {
                assert(self.voices()[(i as usize) as int] == self.voices()[i]);
                assert(done.contains(i as usize) <==> active_set.contains(i as usize));
            }
            assert forall|i: usize| i < v0.len() implies (#[trigger] self.active().contains(i)
                <==> a0.contains(i) && !v0[i as int].advanced().spec_is_off()) by {
                assert(done.contains(i) <==> active_set.contains(i));
            }
        }
        self.program.update_params();
        (left, right)
    }
    /// Applies one control message: a note-on allocates a voice, a note-off
    /// releases the voices of its key, and the other messages edit the patch.
    pub fn apply_message(&mut self, message: Message)
        requires
            old(self).wf(),
        ensures
            final(self).wf(),
            message_applied(*old(self), *final(self), message),
    {
        match message {
            Message::NoteOn { key, velocity } => self.note_on(key, velocity),
            Message::NoteOff { key, velocity } => self.note_off(key, velocity),
            Message::Param { param_ref, value } => self.program.set_param_value(param_ref, value),
            Message::ParamChange { param_ref, change } => self.program.change_param_value(param_ref, change),
            Message::ModulationAmount { param_ref, source_ref, amount } => {
                self.program.set_modulation_amount(param_ref, source_ref, amount)
            },
        }
    }

    /// Applies, in the order they were sent, the events that wait in the
    /// queue when it starts; events sent meanwhile wait for the next block.
    /// The timestamps are not read. What the queue holds is not known here,
    /// so the result is stated for every run of messages it may hand out.
    pub fn prepare(&mut self)
        requires
            old(self).wf(),
        ensures
            final(self).wf(),
            exists|states: Seq<Synth>, ms: Seq<Message>| #[trigger] applied_in_order(states, ms)
                && states[0] == *old(self) && same_state(states.last(), *final(self)),
    {
        let pending = pending_events(&self.events);
        let mut n: usize = 0;
        let ghost mut states: Seq<Synth> = seq![*self];
        let ghost mut ms: Seq<Message> = Seq::empty();
        while n < pending
            invariant
                self.wf(),
                applied_in_order(states, ms),
                states[0] == *old(self),
                same_state(states.last(), *self),
            decreases pending - n,
        {
            match pop_event(&mut self.events) {
                Some(event) => {
                    let ghost before = *self;
                    self.apply_message(event.message);
                    proof {
                        let prev = states;
                        states = states.push(*self);
                        ms = ms.push(event.message);
                        assert forall|k: int| 0 <= k < ms.len() implies message_applied(#[trigger] states[k], states[k + 1], ms[k]) by {
                            if k < ms.len() - 1 {
                                assert(states[k] == prev[k]);
                                assert(states[k + 1] == prev[k + 1]);
                            } else {
                                assert(states[k + 1] == *self);
                                assert(message_applied(before, *self, event.message));
                            }
                        }
                    }
                },
                None => break,
            }
            n = n + 1;
        }
    }

    /// The modulation state shared by the voices.
    pub closed spec fn globals_view(&self) -> SynthGlobals {
        self.globals
    }

    pub fn globals(&self) -> (r: &SynthGlobals)
        ensures
            *r == self.globals_view(),
    {
        &self.globals
    }

    /// The sample rate the synth was built for.
    pub closed spec fn spec_sample_rate(&self) -> u32 {
        self.sample_rate
    }

    pub fn sample_rate(&self) -> (r: u32)
        ensures
            r == self.spec_sample_rate(),
    {
        self.sample_rate
    }

    pub fn program(&self) -> (r: &Program)
        ensures
            *r == self.program_view(),
    {
        &self.program
    }

    /// The voice at `index` of the pool.
    pub fn voice(&self, index: usize) -> (r: Option<Voice>)
        ensures
            index < self.voices().len() ==> r == Some(self.voices()[index as int]),
            index >= self.voices().len() ==> r.is_none(),
    {
        if index < self.voices.len() {
            Some(self.voices[index])
        } else {
            None
        }
    }

    /// The pool indices of the playing voices, in their current order.
    pub fn active_voices(&self) -> (r: Vec<usize>)
        ensures
            r@ == self.active(),
    {
        copy_indices(&self.active_voices)
    }

    /// The pool indices of the free voices, the next one to be allocated last.
    pub fn free_voices(&self) -> (r: Vec<usize>)
        ensures
            r@ == self.free(),
    {
        copy_indices(&self.free_voices)
    }
}

/// The items of `list` in a `Vec`, in order.
fn copy_indices(list: &IndexList) -> (r: Vec<usize>)
    ensures
        r@ == index_list_items(*list),
{
    let n = index_list_len(list);
    let mut r: Vec<usize> = Vec::new();
    let mut k: usize = 0;
    while k < n
        invariant
            k <= n,
            n == index_list_items(*list).len(),
            r@ == index_list_items(*list).subrange(0, k as int),
        decreases n - k,
    {
        r.push(index_list_get(list, k));
        k = k + 1;
        assert(r@ =~= index_list_items(*list).subrange(0, k as int));
    }
    assert(r@ =~= index_list_items(*list));
    r
}

} // verus!
