use lapiz::main_effect::{main_effect_input_slots, main_effect_inputs, MainInput};

fn position_of(inputs: &[MainInput], x: MainInput) -> usize {
    inputs.iter().position(|i| *i == x).unwrap()
}

#[test]
fn plain_brush_inputs_follow_the_fixed_three() {
    let inputs = main_effect_inputs(false, false, false, false);
    assert_eq!(
        inputs,
        vec![
            MainInput::PixelPosition,
            MainInput::PenPosition,
            MainInput::ForegroundColor,
            MainInput::BackgroundColor,
            MainInput::CurrentColor,
            MainInput::Pressure,
            MainInput::Tilt,
            MainInput::Azimuth,
            MainInput::Direction,
            MainInput::InitialDirection,
            MainInput::DabIndex,
            MainInput::StrokeBegin,
            MainInput::UserSize,
            MainInput::UserFlow,
        ]
    );
    let slots = main_effect_input_slots(false, false, false, false);
    assert_eq!(slots.tip, None);
    assert_eq!(slots.background, 3);
    assert_eq!(slots.current_color, 4);
    assert_eq!(slots.pattern, None);
    assert_eq!(slots.dynamics, 5);
    assert_eq!(slots.stroke_distance, None);
    assert_eq!(slots.stroke_time, 11);
    assert_eq!(slots.dual_tip, None);
    assert_eq!(slots.user_size, 12);
    assert_eq!(slots.user_flow, 13);
}

#[test]
fn every_optional_input_shifts_the_later_ones() {
    let inputs = main_effect_inputs(true, true, true, true);
    assert_eq!(inputs.len(), 18);
    let slots = main_effect_input_slots(true, true, true, true);
    assert_eq!(slots.tip, Some(3));
    assert_eq!(slots.background, 4);
    assert_eq!(slots.current_color, 5);
    assert_eq!(slots.pattern, Some(6));
    assert_eq!(slots.dynamics, 7);
    assert_eq!(slots.stroke_distance, Some(13));
    assert_eq!(slots.stroke_time, 14);
    assert_eq!(slots.dual_tip, Some(15));
    assert_eq!(slots.user_size, 16);
    assert_eq!(slots.user_flow, 17);
}

#[test]
fn each_slot_names_its_own_input() {
    for flags in 0..16u8 {
        let (t, p, s, d) = (flags & 1 != 0, flags & 2 != 0, flags & 4 != 0, flags & 8 != 0);
        let inputs = main_effect_inputs(t, p, s, d);
        let slots = main_effect_input_slots(t, p, s, d);
        assert_eq!(slots.background, position_of(&inputs, MainInput::BackgroundColor));
        assert_eq!(slots.current_color, position_of(&inputs, MainInput::CurrentColor));
        assert_eq!(slots.dynamics, position_of(&inputs, MainInput::Pressure));
        assert_eq!(slots.dynamics + 5, position_of(&inputs, MainInput::DabIndex));
        assert_eq!(slots.stroke_time, position_of(&inputs, MainInput::StrokeBegin));
        assert_eq!(slots.user_size, position_of(&inputs, MainInput::UserSize));
        assert_eq!(slots.user_flow, inputs.len() - 1);
        assert_eq!(slots.tip.is_some(), t);
        assert_eq!(slots.pattern.map(|i| inputs[i]), p.then_some(MainInput::PatternTexture));
        assert_eq!(slots.stroke_distance.map(|i| inputs[i]), s.then_some(MainInput::StrokeDistance));
        assert_eq!(slots.dual_tip.map(|i| inputs[i]), d.then_some(MainInput::DualTipTexture));
    }
}
