use lpd8_obs::input::{control_change, process_input, program_change, Input, LPD8Error, Lpd8Message};

const PADS: [Input; 8] = [
    Input::Pad1,
    Input::Pad2,
    Input::Pad3,
    Input::Pad4,
    Input::Pad5,
    Input::Pad6,
    Input::Pad7,
    Input::Pad8,
];

const KNOBS: [Input; 8] = [
    Input::Knob1,
    Input::Knob2,
    Input::Knob3,
    Input::Knob4,
    Input::Knob5,
    Input::Knob6,
    Input::Knob7,
    Input::Knob8,
];

#[test]
fn pad_codes_alias_across_modes() {
    for k in 0u8..8 {
        let low = Input::try_from(k).unwrap();
        let high = Input::try_from(k + 12).unwrap();
        assert_eq!(low, high);
        assert_eq!(low, PADS[k as usize]);
    }
}

#[test]
fn knob_codes_are_distinct_and_not_pads() {
    for code in 70u8..78 {
        let i = Input::try_from(code).unwrap();
        assert_eq!(i, KNOBS[(code - 70) as usize]);
        assert!(!PADS.contains(&i));
        for other in 70u8..78 {
            if other != code {
                assert_ne!(Input::try_from(other).unwrap(), i);
            }
        }
    }
}

#[test]
fn unknown_codes_are_rejected() {
    for code in [8u8, 11, 20, 69, 78, 127, 255] {
        assert_eq!(Input::try_from(code), Err(LPD8Error::UnknownInput(code)));
    }
}

#[test]
fn index_orders_pads_then_knobs() {
    assert_eq!(Input::Pad1.index(), 0);
    assert_eq!(Input::Pad8.index(), 7);
    assert_eq!(Input::Knob1.index(), 8);
    assert_eq!(Input::Knob8.index(), 15);
}

#[test]
fn program_change_message_is_decoded() {
    assert_eq!(process_input(&[0xC0, 0x00]), Some(Lpd8Message::ProgramChange(Input::Pad1)));
    assert_eq!(process_input(&[0xC0, 19]), Some(Lpd8Message::ProgramChange(Input::Pad8)));
    assert_eq!(program_change(3), Some(Lpd8Message::ProgramChange(Input::Pad4)));
}

#[test]
fn control_change_message_is_decoded() {
    assert_eq!(
        process_input(&[0xB0, 70, 64]),
        Some(Lpd8Message::ControlChange(Input::Knob1, 64))
    );
    assert_eq!(
        process_input(&[0xB0, 12, 127]),
        Some(Lpd8Message::ControlChange(Input::Pad1, 127))
    );
    assert_eq!(control_change(77, 0), Some(Lpd8Message::ControlChange(Input::Knob8, 0)));
}

#[test]
fn other_shapes_yield_nothing() {
    assert_eq!(process_input(&[]), None);
    assert_eq!(process_input(&[0xC0]), None);
    assert_eq!(process_input(&[0xC0, 0, 0, 0]), None);
    assert_eq!(process_input(&[0xB0, 70]), None);
    assert_eq!(process_input(&[0x90, 60, 100]), None);
    assert_eq!(process_input(&[0x80, 1]), None);
}

#[test]
fn only_matching_status_nibbles_are_decoded() {
    assert_eq!(process_input(&[0xD0, 0]), None);
    assert_eq!(process_input(&[0xE0, 0]), None);
    assert_eq!(process_input(&[0xF0, 70, 1]), None);
    assert_eq!(process_input(&[0xF0, 0]), None);
    assert_eq!(process_input(&[0xCF, 1]), Some(Lpd8Message::ProgramChange(Input::Pad2)));
    assert_eq!(
        process_input(&[0xBF, 71, 5]),
        Some(Lpd8Message::ControlChange(Input::Knob2, 5))
    );
}

#[test]
fn unknown_codes_and_values_are_dropped() {
    assert_eq!(process_input(&[0xC0, 50]), None);
    assert_eq!(process_input(&[0xB0, 50, 10]), None);
    assert_eq!(process_input(&[0xB0, 70, 128]), None);
    assert_eq!(control_change(70, 200), None);
    assert_eq!(program_change(99), None);
}
