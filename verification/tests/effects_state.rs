use kb_host::color::Hsva;
use kb_host::effects::BoundKey;
use kb_host::effects::EffectPipeline;
use kb_host::effects::LedState;
use kb_host::effects::Rainbow1Effect;
use kb_host::matrix::KeyMatrix;

fn bound_slot(x_c: u32, y_c: u32) -> LedState {
    let mut s = LedState::default();
    s.key = Some(BoundKey { row: 0, col: 0, x_c, y_c });
    s
}

#[test]
fn rainbow_paints_bound_slots_and_skips_unbound() {
    let km = KeyMatrix::new(1, 2);
    let mut eff = Rainbow1Effect::default();
    let mut slots = vec![LedState::default(), bound_slot(100, 0)];
    eff.update(0, &mut slots, &km);
    // The unbound slot keeps its default color.
    assert_eq!(slots[0], LedState::default());
    // The bound slot gets the spatially shifted hue: 100 centi-units at
    // 40 millidegrees each.
    assert_eq!(
        slots[1].color,
        Hsva { hue_mdeg: 4000, sat: 255, val: 255, alpha: 255 }
    );
}

#[test]
fn rainbow_phase_advances_with_elapsed_time() {
    let km = KeyMatrix::new(1, 1);
    let mut eff = Rainbow1Effect::default();
    let mut slots: Vec<LedState> = vec![];
    // One second at 36 degrees per second.
    eff.update(1_000_000, &mut slots, &km);
    assert_eq!(eff.base_hue_mdeg, 36_000);
    // The phase wraps into one turn.
    eff.base_hue_mdeg = 359_000;
    eff.update(1_000_000, &mut slots, &km);
    assert_eq!(eff.base_hue_mdeg, 35_000);
}

#[test]
fn slot_hue_wraps_into_one_turn() {
    let km = KeyMatrix::new(1, 1);
    let mut eff = Rainbow1Effect { base_hue_mdeg: 358_000 };
    let mut slots = vec![bound_slot(100, 0)];
    eff.update(0, &mut slots, &km);
    // 358000 + 4000 wraps to 2000.
    assert_eq!(slots[0].color.hue_mdeg, 2_000);
}

#[test]
fn pipeline_is_deterministic_for_equal_delta_sequences() {
    let km = KeyMatrix::new(1, 1);
    let deltas = [16_000u64, 50_000, 7_331, 100_000, 0, 1_000_000];

    let mut p1 = EffectPipeline::new_default();
    let mut p2 = EffectPipeline::new_default();
    let mut slots1 = vec![bound_slot(0, 0), bound_slot(225, 100), LedState::default()];
    let mut slots2 = slots1.clone();

    for d in deltas {
        p1.update(d, &mut slots1, &km);
        p2.update(d, &mut slots2, &km);
        assert_eq!(slots1, slots2);
    }
}

#[test]
fn later_effects_run_in_registration_order() {
    // With two rainbows at different phases, the later one wins every
    // bound slot: last-write-wins, deterministic by order.
    let km = KeyMatrix::new(1, 1);
    let mut p = EffectPipeline {
        effects: vec![
            kb_host::effects::Effect::Rainbow1(Rainbow1Effect { base_hue_mdeg: 0 }),
            kb_host::effects::Effect::Rainbow1(Rainbow1Effect { base_hue_mdeg: 180_000 }),
        ],
    };
    let mut slots = vec![bound_slot(0, 0)];
    p.update(0, &mut slots, &km);
    assert_eq!(slots[0].color.hue_mdeg, 180_000);
}
