//! LED effects: stateful generators that recompute every LED color on
//! each frame tick from elapsed time and the current key state.
//!
//! Effects are pure functions of their own state, the elapsed time and
//! the key state, so a run is exactly reproducible from its delta-time
//! sequence. The effect set is closed: a tagged union stands in for the
//! dynamic dispatch a host with loadable effects would use.

use vstd::prelude::*;
use crate::color::Hsva;
use crate::color::HUE_TURN_MDEG;
use crate::matrix::KeyMatrix;
use crate::matrix::KeyState;

verus! {

/// Hue speed of the rotating rainbow, in millidegrees per second.
pub const RAINBOW_SPEED_MDEG_PER_SEC: u64 = 36000;

/// Spatial hue spread of the rainbow, in millidegrees per centi-unit of
/// key position (4 degrees per key unit).
pub const RAINBOW_FACTOR_MDEG_PER_CENTI: u32 = 40;

/// Microseconds in one second.
pub const MICROS_PER_SEC: u64 = 1000000;

/// The layout key a LED slot is bound to: its matrix position and its
/// physical position in centi-key-units.
#[derive(Clone, Copy, PartialEq, Eq, Debug)]
pub struct BoundKey {
    /// Matrix row of the key.
    pub row: u8,
    /// Matrix column of the key.
    pub col: u8,
    /// Horizontal position, in hundredths of a key unit.
    pub x_c: u32,
    /// Vertical position, in hundredths of a key unit.
    pub y_c: u32,
}

/// One LED slot: its current color, and the key it sits under, if any.
/// A slot with no bound key is never touched by position-aware effects.
#[derive(Clone, Copy, PartialEq, Eq, Debug)]
pub struct LedState {
    /// The slot's current color.
    pub color: Hsva,
    /// The key this LED is bound to, if any.
    pub key: Option<BoundKey>,
}

impl Default for LedState {
    /// An unlit slot bound to no key: black at full alpha.
    fn default() -> (r: LedState)
        ensures
            r == spec_default_led(),
    {
        LedState { color: Hsva { hue_mdeg: 0, sat: 0, val: 0, alpha: 255 }, key: None }
    }
}

/// The color and binding of a slot nothing has touched.
pub open spec fn spec_default_led() -> LedState {
    LedState { color: Hsva { hue_mdeg: 0, sat: 0, val: 0, alpha: 255 }, key: None }
}

impl LedState {
    /// The key this slot is bound to; only slots with a binding may ask.
    pub fn key(&self) -> (r: BoundKey)
        requires
            self.key is Some,
        ensures
            Some(r) == self.key,
    {
        self.key.unwrap()
    }
}

/// The hue the rainbow paints on a key at the given position: the phase,
/// shifted by the key's distance from the origin, wrapped into one turn.
pub open spec fn spec_slot_hue(base_mdeg: u32, key: BoundKey) -> u32 {
    ((base_mdeg + (key.x_c + key.y_c) * RAINBOW_FACTOR_MDEG_PER_CENTI) % (
    HUE_TURN_MDEG as int)) as u32
}

/// What the rainbow writes into one slot: a fully saturated, fully bright
/// color at the slot's hue; a slot with no bound key is left unmodified.
pub open spec fn spec_rainbow_slot(base_mdeg: u32, slot: LedState) -> LedState {
    match slot.key {
        Some(k) => LedState {
            color: Hsva { hue_mdeg: spec_slot_hue(base_mdeg, k), sat: 255, val: 255, alpha: 255 },
            key: slot.key,
        },
        None => slot,
    }
}

/// One rainbow pass over all slots.
pub open spec fn spec_rainbow_slots(base_mdeg: u32, slots: Seq<LedState>) -> Seq<LedState> {
    slots.map(|i: int, s: LedState| spec_rainbow_slot(base_mdeg, s))
}

/// The rainbow phase after `delta_us` microseconds: advanced by the
/// elapsed fraction of the speed (truncated to whole millidegrees),
/// wrapped into one turn.
pub open spec fn spec_advance_phase(base_mdeg: u32, delta_us: u64) -> u32 {
    ((base_mdeg + (delta_us * RAINBOW_SPEED_MDEG_PER_SEC) / (MICROS_PER_SEC as int)) % (
    HUE_TURN_MDEG as int)) as u32
}

/// The rotating rainbow: sweeps a hue gradient across the keys and
/// rotates it over time. Its only state is the current phase angle.
#[derive(Clone, Copy, Debug)]
pub struct Rainbow1Effect {
    /// Current phase angle, in millidegrees, always below one turn.
    pub base_hue_mdeg: u32,
}

impl Default for Rainbow1Effect {
    /// A rainbow starting at phase zero.
    fn default() -> (r: Rainbow1Effect)
        ensures
            r == (Rainbow1Effect { base_hue_mdeg: 0 }),
    {
        Rainbow1Effect { base_hue_mdeg: 0 }
    }
}

impl Rainbow1Effect {
    /// The phase stays below one full turn.
    pub open spec fn wf(self) -> bool {
        self.base_hue_mdeg < HUE_TURN_MDEG
    }

    /// One frame tick: paints every bound slot from the current phase,
    /// then advances the phase by the elapsed time.
    pub fn update(&mut self, delta_us: u64, state: &mut Vec<LedState>, key_state: &KeyMatrix)
        ensures
            final(self).base_hue_mdeg == spec_advance_phase(old(self).base_hue_mdeg, delta_us),
            final(self).wf(),
            final(state)@ == spec_rainbow_slots(old(self).base_hue_mdeg, old(state)@),
    {
        let n: usize = state.len();
        let base: u32 = self.base_hue_mdeg;
        let mut i: usize = 0;
        while i < n
            invariant
                n == old(state)@.len(),
                i <= n,
                base == old(self).base_hue_mdeg,
                self.base_hue_mdeg == old(self).base_hue_mdeg,
                state@.len() == n,
                forall|j: int| 0 <= j < i ==> state@[j] == spec_rainbow_slot(base, old(state)@[j]),
                forall|j: int| i <= j < n ==> state@[j] == old(state)@[j],
            decreases n - i,
        {
            let slot = &mut state[i];
            let cur = *slot;
            match cur.key {
                Some(k) => {
                    let shift: u64 = ((k.x_c as u64) + (k.y_c as u64)) * (
                    RAINBOW_FACTOR_MDEG_PER_CENTI as u64);
                    let hue: u32 = (((base as u64) + shift) % (HUE_TURN_MDEG as u64)) as u32;
                    *slot = LedState {
                        color: Hsva { hue_mdeg: hue, sat: 255, val: 255, alpha: 255 },
                        key: cur.key,
                    };
                    assert(hue == spec_slot_hue(base, k));
                }
                None => {}
            }
            i = i + 1;
        }
        proof {
            assert(state@ =~= spec_rainbow_slots(old(self).base_hue_mdeg, old(state)@));
        }

        proof {
            assert((delta_us as int) * (RAINBOW_SPEED_MDEG_PER_SEC as int) <= 0xffffffffffffffff
                * 36000) by (nonlinear_arith)
                requires
                    delta_us <= 0xffffffffffffffff,
            ;
        }
        let step: u128 = (delta_us as u128) * (RAINBOW_SPEED_MDEG_PER_SEC as u128) / (
        MICROS_PER_SEC as u128);
        let phase: u128 = (self.base_hue_mdeg as u128) + step;
        self.base_hue_mdeg = (phase % (HUE_TURN_MDEG as u128)) as u32;
    }
}

/// One effect of the closed effect set.
#[derive(Clone, Copy, Debug)]
pub enum Effect {
    /// The rotating rainbow.
    Rainbow1(Rainbow1Effect),
}

impl Effect {
    /// What one tick of this effect does: the successor effect state and
    /// the slots it leaves behind. A pure function of the effect state,
    /// the elapsed time, the slots and the key state.
    pub open spec fn spec_update(
        self,
        delta_us: u64,
        slots: Seq<LedState>,
        keys: Seq<Seq<KeyState>>,
    ) -> (Effect, Seq<LedState>) {
        match self {
            Effect::Rainbow1(e) => (
                Effect::Rainbow1(
                    Rainbow1Effect { base_hue_mdeg: spec_advance_phase(e.base_hue_mdeg, delta_us) },
                ),
                spec_rainbow_slots(e.base_hue_mdeg, slots),
            ),
        }
    }

    /// The effect's internal state is within its bounds.
    pub open spec fn wf(self) -> bool {
        match self {
            Effect::Rainbow1(e) => e.wf(),
        }
    }

    /// Runs one tick of this effect over the slots.
    pub fn update(&mut self, delta_us: u64, state: &mut Vec<LedState>, key_state: &KeyMatrix)
        ensures
            (*final(self), final(state)@) == old(self).spec_update(
                delta_us,
                old(state)@,
                key_state.grid@.map(|i: int, r: Vec<KeyState>| r@),
            ),
            final(self).wf(),
    {
        match self {
            Effect::Rainbow1(e) => {
                e.update(delta_us, state, key_state);
            }
        }
    }
}

/// What a whole pipeline tick does: every effect runs once, in order,
/// each over the slots the previous one left behind.
pub open spec fn spec_pipeline_run(
    effects: Seq<Effect>,
    delta_us: u64,
    slots: Seq<LedState>,
    keys: Seq<Seq<KeyState>>,
) -> (Seq<Effect>, Seq<LedState>)
    decreases effects.len(),
{
    if effects.len() == 0 {
        (effects, slots)
    } else {
        let head = effects[0].spec_update(delta_us, slots, keys);
        let rest = spec_pipeline_run(effects.drop_first(), delta_us, head.1, keys);
        (seq![head.0] + rest.0, rest.1)
    }
}

/// An ordered list of effects, run in registration order on every frame
/// tick; later effects overwrite earlier ones where they both write.
pub struct EffectPipeline {
    /// The effects, in registration order.
    pub effects: Vec<Effect>,
}

impl EffectPipeline {
    /// Every effect of the pipeline is within its bounds.
    pub open spec fn wf(self) -> bool {
        forall|i: int| 0 <= i < self.effects@.len() ==> (#[trigger] self.effects@[i]).wf()
    }

    /// The pipeline the host registers: a single rotating rainbow.
    pub fn new_default() -> (r: EffectPipeline)
        ensures
            r.wf(),
            r.effects@ =~= seq![Effect::Rainbow1(Rainbow1Effect { base_hue_mdeg: 0 })],
    {
        let mut effects: Vec<Effect> = Vec::new();
        effects.push(Effect::Rainbow1(Rainbow1Effect::default()));
        EffectPipeline { effects }
    }

    /// One frame tick: runs every effect once, in order.
    pub fn update(&mut self, delta_us: u64, state: &mut Vec<LedState>, key_state: &KeyMatrix)
        ensures
            ({
                let run = spec_pipeline_run(
                    old(self).effects@,
                    delta_us,
                    old(state)@,
                    key_state.grid@.map(|i: int, r: Vec<KeyState>| r@),
                );
                final(self).effects@ == run.0 && final(state)@ == run.1
            }),
            final(self).wf(),
    {
        let ghost keys = key_state.grid@.map(|i: int, r: Vec<KeyState>| r@);
        let ghost full = spec_pipeline_run(old(self).effects@, delta_us, old(state)@, keys);
        proof {
            lemma_pipeline_run_len(old(self).effects@, delta_us, old(state)@, keys);
            assert(old(self).effects@.skip(0) =~= old(self).effects@);
            assert(full.0.skip(0) =~= full.0);
        }
        let n: usize = self.effects.len();
        let mut i: usize = 0;
        while i < n
            invariant
                n == old(self).effects@.len(),
                i <= n,
                self.effects@.len() == n,
                keys == key_state.grid@.map(|i: int, r: Vec<KeyState>| r@),
                full == spec_pipeline_run(old(self).effects@, delta_us, old(state)@, keys),
                full.0.len() == n,
                forall|j: int| i <= j < n ==> self.effects@[j] == old(self).effects@[j],
                forall|j: int| 0 <= j < i ==> self.effects@[j] == full.0[j],
                forall|j: int| 0 <= j < i ==> (#[trigger] self.effects@[j]).wf(),
                spec_pipeline_run(old(self).effects@.skip(i as int), delta_us, state@, keys) == (
                full.0.skip(i as int), full.1),
            decreases n - i,
        {
            let ghost pre_slots = state@;
            let ghost pre_effect = self.effects@[i as int];
            proof {
                lemma_pipeline_run_step(old(self).effects@, i as int, delta_us, pre_slots, keys);
            }
            let eff = &mut self.effects[i];
            eff.update(delta_us, state, key_state);
            proof {
                let head = pre_effect.spec_update(delta_us, pre_slots, keys);
                let rest = spec_pipeline_run(
                    old(self).effects@.skip(i as int + 1),
                    delta_us,
                    head.1,
                    keys,
                );
                assert(self.effects@[i as int] == head.0);
                assert(state@ == head.1);
                assert(seq![head.0] + rest.0 == full.0.skip(i as int));
                assert((seq![head.0] + rest.0)[0] == head.0);
                assert(full.0.skip(i as int)[0] == full.0[i as int]);
                assert(rest.0 =~= full.0.skip(i as int).drop_first());
                assert(full.0.skip(i as int).drop_first() =~= full.0.skip(i as int + 1));
            }
            i = i + 1;
        }
        proof {
            lemma_pipeline_run_len(old(self).effects@, delta_us, old(state)@, keys);
            assert(old(self).effects@.skip(n as int) =~= Seq::<Effect>::empty());
            assert(full.0.skip(n as int) =~= Seq::<Effect>::empty());
            assert(self.effects@ =~= full.0);
        }
    }
}

/// A pipeline run returns as many effects as it was given.
pub proof fn lemma_pipeline_run_len(
    effects: Seq<Effect>,
    delta_us: u64,
    slots: Seq<LedState>,
    keys: Seq<Seq<KeyState>>,
)
    ensures
        spec_pipeline_run(effects, delta_us, slots, keys).0.len() == effects.len(),
    decreases effects.len(),
{
    if effects.len() > 0 {
        let head = effects[0].spec_update(delta_us, slots, keys);
        lemma_pipeline_run_len(effects.drop_first(), delta_us, head.1, keys);
    }
}

/// The per-frame colors of a pipeline run over a whole sequence of frame
/// times: entry `t` shows the slots right after the `t`-th frame tick.
pub open spec fn spec_pipeline_frames(
    effects: Seq<Effect>,
    deltas: Seq<u64>,
    slots: Seq<LedState>,
    keys: Seq<Seq<KeyState>>,
) -> Seq<Seq<LedState>>
    decreases deltas.len(),
{
    if deltas.len() == 0 {
        Seq::empty()
    } else {
        let step = spec_pipeline_run(effects, deltas[0], slots, keys);
        seq![step.1] + spec_pipeline_frames(step.0, deltas.drop_first(), step.1, keys)
    }
}

/// Effects are pure functions of their own state, the elapsed time and
/// the key state: two runs fed identical delta-time sequences from
/// identical initial effects, slots and key state show identical colors
/// on every frame.
pub proof fn lemma_pipeline_deterministic(
    effects1: Seq<Effect>,
    effects2: Seq<Effect>,
    deltas1: Seq<u64>,
    deltas2: Seq<u64>,
    slots1: Seq<LedState>,
    slots2: Seq<LedState>,
    keys1: Seq<Seq<KeyState>>,
    keys2: Seq<Seq<KeyState>>,
)
    requires
        effects1 == effects2,
        deltas1 == deltas2,
        slots1 == slots2,
        keys1 == keys2,
    ensures
        spec_pipeline_frames(effects1, deltas1, slots1, keys1) == spec_pipeline_frames(
            effects2,
            deltas2,
            slots2,
            keys2,
        ),
{
}

/// Every slot's color keeps its hue below one full turn.
pub open spec fn spec_slots_wf(slots: Seq<LedState>) -> bool {
    forall|i: int| 0 <= i < slots.len() ==> (#[trigger] slots[i]).color.wf()
}

/// A pipeline run keeps the number of slots, and keeps every color
/// within its bounds: every effect writes wrapped hues and leaves other
/// slots alone.
pub proof fn lemma_pipeline_run_slots(
    effects: Seq<Effect>,
    delta_us: u64,
    slots: Seq<LedState>,
    keys: Seq<Seq<KeyState>>,
)
    ensures
        spec_pipeline_run(effects, delta_us, slots, keys).1.len() == slots.len(),
        spec_slots_wf(slots) ==> spec_slots_wf(spec_pipeline_run(effects, delta_us, slots, keys).1),
    decreases effects.len(),
{
    if effects.len() > 0 {
        let head = effects[0].spec_update(delta_us, slots, keys);
        match effects[0] {
            Effect::Rainbow1(e) => {
                assert(head.1.len() == slots.len());
                if spec_slots_wf(slots) {
                    assert forall|i: int| 0 <= i < head.1.len() implies (#[trigger] head.1[i]).color.wf() by {
                        assert(head.1[i] == spec_rainbow_slot(e.base_hue_mdeg, slots[i]));
                        assert(slots[i].color.wf());
                    }
                }
            },
        }
        lemma_pipeline_run_slots(effects.drop_first(), delta_us, head.1, keys);
    }
}

/// Unrolls one step of a pipeline run from position `i`.
pub proof fn lemma_pipeline_run_step(
    effects: Seq<Effect>,
    i: int,
    delta_us: u64,
    slots: Seq<LedState>,
    keys: Seq<Seq<KeyState>>,
)
    requires
        0 <= i < effects.len(),
    ensures
        ({
            let head = effects[i].spec_update(delta_us, slots, keys);
            let rest = spec_pipeline_run(effects.skip(i + 1), delta_us, head.1, keys);
            spec_pipeline_run(effects.skip(i), delta_us, slots, keys) == (
            seq![head.0] + rest.0, rest.1)
        }),
{
    assert(effects.skip(i)[0] == effects[i]);
    assert(effects.skip(i).drop_first() =~= effects.skip(i + 1));
}

} // verus!
