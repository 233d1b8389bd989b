use ch57x_keyboard::keyboard::k8890::Keyboard8890;
use ch57x_keyboard::keyboard::{
    Accord, BindError, Key, Keyboard, KeyboardPart, KnobAction, Macro, Modifiers, MouseAction,
    MouseButtons, MouseEvent, MouseModifier,
};

const FINISH: [u8; 9] = [0x03, 0xaa, 0xaa, 0, 0, 0, 0, 0, 0];

fn ready_8890() -> Keyboard8890 {
    let mut keyboard = Keyboard8890::new(0x04);
    assert_eq!(keyboard.take_frames(), vec![Vec::<u8>::new()]);
    keyboard
}

fn press_8890(modifiers: u8, code: u8) -> KeyboardPart {
    KeyboardPart::Key(Accord { modifiers: Modifiers { bits: modifiers }, code: Some(code) })
}

fn start(wire_layer: u8) -> Vec<u8> {
    vec![0x03, 0xfe, wire_layer, 0x01, 0x01, 0, 0, 0, 0]
}

fn mouse(action: MouseAction, modifier: Option<MouseModifier>) -> Macro {
    Macro::Mouse(MouseEvent(action, modifier))
}

#[test]
fn k8890_new_keyboard_queues_the_empty_frame() {
    let mut keyboard = Keyboard8890::new(0x04);
    assert_eq!(keyboard.get_endpoint(), 0x04);
    assert_eq!(keyboard.take_frames(), vec![Vec::<u8>::new()]);
    assert_eq!(keyboard.take_frames(), Vec::<Vec<u8>>::new());
    assert_eq!(Keyboard8890::new(0x81).get_endpoint(), 0x81);
}

#[test]
fn k8890_preferred_endpoint() {
    assert_eq!(Keyboard8890::preferred_endpoint(), 0x04);
}

#[test]
fn k8890_layer_byte_is_layer_plus_one() {
    for layer in 0..=15u8 {
        let mut keyboard = ready_8890();
        assert_eq!(keyboard.bind_key(layer, Key::Button(0), &Macro::Media(0x00e9)), Ok(()));
        let frames = keyboard.take_frames();
        assert_eq!(frames.len(), 3);
        assert_eq!(frames[0], start(layer + 1));
        assert_eq!(frames[0][2], layer + 1);
        assert_eq!(frames[2], FINISH.to_vec());
    }
}

#[test]
fn k8890_layer_sixteen_is_invalid() {
    for layer in [16u8, 17, 128, 255] {
        let mut keyboard = ready_8890();
        let outcome = keyboard.bind_key(layer, Key::Button(0), &Macro::Media(0x00e9));
        assert_eq!(outcome, Err(BindError::InvalidLayer));
        assert_eq!(keyboard.take_frames(), Vec::<Vec<u8>>::new());
    }
}

#[test]
fn k8890_selector_holds_layer_and_kind() {
    let mut keyboard = ready_8890();
    assert_eq!(keyboard.bind_key(0, Key::Button(0), &Macro::Media(0x00e9)), Ok(()));
    assert_eq!(keyboard.take_frames()[1][2], 0x12);
    assert_eq!(keyboard.bind_key(6, Key::Button(0), &Macro::Media(0x00e9)), Ok(()));
    assert_eq!(keyboard.take_frames()[1][2], 0x72);
    assert_eq!(keyboard.bind_key(14, Key::Button(0), &mouse(MouseAction::WheelUp, None)), Ok(()));
    assert_eq!(keyboard.take_frames()[1][2], 0xf3);
    assert_eq!(keyboard.bind_key(14, Key::Button(0), &Macro::Keyboard(vec![])), Ok(()));
    assert_eq!(keyboard.take_frames()[1][2], 0xf0);
}

#[test]
fn k8890_selector_of_the_last_layer_keeps_the_kind_only() {
    let mut keyboard = ready_8890();
    assert_eq!(keyboard.bind_key(15, Key::Button(0), &Macro::Media(0x00e9)), Ok(()));
    let frames = keyboard.take_frames();
    assert_eq!(frames[0], start(16));
    assert_eq!(frames[1], vec![0x03, 1, 0x02, 0xe9, 0x00, 0, 0, 0, 0]);
}

#[test]
fn k8890_media_key() {
    let mut keyboard = ready_8890();
    assert_eq!(keyboard.bind_key(1, Key::Button(2), &Macro::Media(0x1234)), Ok(()));
    let expected =
        vec![start(2), vec![0x03, 3, 0x22, 0x34, 0x12, 0, 0, 0, 0], FINISH.to_vec()];
    assert_eq!(keyboard.take_frames(), expected);
}

#[test]
fn k8890_keyboard_macro_starts_with_an_empty_press() {
    let mut keyboard = ready_8890();
    let expansion = Macro::Keyboard(vec![press_8890(0x01, 0x06), press_8890(0x00, 0x19)]);
    assert_eq!(keyboard.bind_key(0, Key::Button(4), &expansion), Ok(()));
    let expected = vec![
        start(1),
        vec![0x03, 5, 0x10, 2, 0, 0x00, 0x00, 0, 0],
        vec![0x03, 5, 0x10, 2, 1, 0x01, 0x06, 0, 0],
        vec![0x03, 5, 0x10, 2, 2, 0x00, 0x19, 0, 0],
        FINISH.to_vec(),
    ];
    assert_eq!(keyboard.take_frames(), expected);
}

#[test]
fn k8890_press_without_a_code_sends_zero() {
    let mut keyboard = ready_8890();
    let bare = KeyboardPart::Key(Accord { modifiers: Modifiers { bits: 0x04 }, code: None });
    assert_eq!(keyboard.bind_key(2, Key::Button(0), &Macro::Keyboard(vec![bare])), Ok(()));
    let expected = vec![
        start(3),
        vec![0x03, 1, 0x30, 1, 0, 0x00, 0x00, 0, 0],
        vec![0x03, 1, 0x30, 1, 1, 0x04, 0x00, 0, 0],
        FINISH.to_vec(),
    ];
    assert_eq!(keyboard.take_frames(), expected);
}

#[test]
fn k8890_empty_keyboard_macro_sends_the_empty_press_alone() {
    let mut keyboard = ready_8890();
    assert_eq!(keyboard.bind_key(0, Key::Button(0), &Macro::Keyboard(vec![])), Ok(()));
    let expected =
        vec![start(1), vec![0x03, 1, 0x10, 0, 0, 0x00, 0x00, 0, 0], FINISH.to_vec()];
    assert_eq!(keyboard.take_frames(), expected);
}

#[test]
fn k8890_macro_of_five_presses_is_accepted() {
    let mut keyboard = ready_8890();
    let parts: Vec<KeyboardPart> = (0..5u8).map(|i| press_8890(i, 0x04 + i)).collect();
    assert_eq!(keyboard.bind_key(0, Key::Button(0), &Macro::Keyboard(parts)), Ok(()));
    let frames = keyboard.take_frames();
    assert_eq!(frames.len(), 8);
    assert_eq!(frames[0], start(1));
    assert_eq!(frames[1], vec![0x03, 1, 0x10, 5, 0, 0, 0, 0, 0]);
    for i in 0..5u8 {
        assert_eq!(frames[2 + i as usize], vec![0x03, 1, 0x10, 5, i + 1, i, 0x04 + i, 0, 0]);
    }
    assert_eq!(frames[7], FINISH.to_vec());
}

#[test]
fn k8890_macro_of_six_presses_is_too_long() {
    let mut keyboard = ready_8890();
    let parts: Vec<KeyboardPart> = (0..6u8).map(|i| press_8890(0, 0x04 + i)).collect();
    let outcome = keyboard.bind_key(0, Key::Button(0), &Macro::Keyboard(parts));
    assert_eq!(outcome, Err(BindError::MacroTooLong));
    // The opening frame is on its way by the time the macro is looked at.
    assert_eq!(keyboard.take_frames(), vec![start(1)]);
}

#[test]
fn k8890_too_long_comes_before_the_delay() {
    let mut keyboard = ready_8890();
    let mut parts = vec![KeyboardPart::Delay(10)];
    parts.extend((0..5u8).map(|i| press_8890(0, 0x04 + i)));
    let outcome = keyboard.bind_key(0, Key::Button(0), &Macro::Keyboard(parts));
    assert_eq!(outcome, Err(BindError::MacroTooLong));
    assert_eq!(keyboard.take_frames(), vec![start(1)]);
}

#[test]
fn k8890_delay_is_unsupported_wherever_it_stands() {
    let cases = vec![
        vec![KeyboardPart::Delay(10)],
        vec![KeyboardPart::Delay(0), press_8890(0, 4)],
        vec![press_8890(0, 4), KeyboardPart::Delay(10), press_8890(0, 5)],
        vec![press_8890(0, 4), press_8890(0, 5), press_8890(0, 6), press_8890(0, 7), KeyboardPart::Delay(6000)],
    ];
    for parts in cases {
        let mut keyboard = ready_8890();
        let outcome = keyboard.bind_key(7, Key::Button(0), &Macro::Keyboard(parts));
        assert_eq!(outcome, Err(BindError::UnsupportedFeature));
        assert_eq!(keyboard.take_frames(), vec![start(8)]);
    }
}

#[test]
fn k8890_key_that_does_not_exist_is_invalid() {
    let expansions = vec![
        Macro::Media(0x00e9),
        Macro::Keyboard(vec![press_8890(0, 4)]),
        mouse(MouseAction::Click(MouseButtons { bits: 1 }), None),
        mouse(MouseAction::WheelUp, None),
        mouse(MouseAction::WheelDown, None),
        mouse(MouseAction::Move { dx: 1, dy: 1 }, None),
    ];
    for expansion in expansions {
        for key in [Key::Button(12), Key::Button(14), Key::Knob(3, KnobAction::Press)] {
            let mut keyboard = ready_8890();
            assert_eq!(keyboard.bind_key(0, key, &expansion), Err(BindError::InvalidKey));
            assert_eq!(keyboard.take_frames(), vec![start(1)]);
        }
    }
}

#[test]
fn k8890_knob_has_ids_after_the_buttons() {
    let mut keyboard = ready_8890();
    let key = Key::Knob(2, KnobAction::Press);
    assert_eq!(keyboard.bind_key(0, key, &Macro::Media(0x00e9)), Ok(()));
    assert_eq!(keyboard.take_frames()[1][1], 20);
}

#[test]
fn k8890_click() {
    let mut keyboard = ready_8890();
    let expansion = mouse(MouseAction::Click(MouseButtons { bits: 0x03 }), Some(MouseModifier::Shift));
    assert_eq!(keyboard.bind_key(0, Key::Button(1), &expansion), Ok(()));
    let expected =
        vec![start(1), vec![0x03, 2, 0x13, 0x03, 0, 0, 0, 0x02, 0], FINISH.to_vec()];
    assert_eq!(keyboard.take_frames(), expected);
}

#[test]
fn k8890_click_without_buttons_is_refused() {
    for key in [Key::Button(0), Key::Button(12)] {
        let mut keyboard = ready_8890();
        let expansion = mouse(MouseAction::Click(MouseButtons { bits: 0 }), None);
        assert_eq!(keyboard.bind_key(0, key, &expansion), Err(BindError::MissingButtons));
        assert_eq!(keyboard.take_frames(), vec![start(1)]);
    }
}

#[test]
fn k8890_wheel_up_is_one_step() {
    let mut keyboard = ready_8890();
    let expansion = mouse(MouseAction::WheelUp, Some(MouseModifier::Ctrl));
    assert_eq!(keyboard.bind_key(0, Key::Button(0), &expansion), Ok(()));
    let expected =
        vec![start(1), vec![0x03, 1, 0x13, 0, 0, 0, 0x01, 0x01, 0], FINISH.to_vec()];
    assert_eq!(keyboard.take_frames(), expected);
}

#[test]
fn k8890_wheel_down_is_minus_one_step() {
    let mut keyboard = ready_8890();
    let expansion = mouse(MouseAction::WheelDown, None);
    assert_eq!(keyboard.bind_key(3, Key::Button(11), &expansion), Ok(()));
    let expected =
        vec![start(4), vec![0x03, 12, 0x43, 0, 0, 0, 0xff, 0x00, 0], FINISH.to_vec()];
    assert_eq!(keyboard.take_frames(), expected);
}

#[test]
fn k8890_move_left_by_one() {
    let mut keyboard = ready_8890();
    let expansion = mouse(MouseAction::Move { dx: -1, dy: 0 }, None);
    assert_eq!(keyboard.bind_key(0, Key::Button(0), &expansion), Ok(()));
    let expected =
        vec![start(1), vec![0x03, 1, 0x13, 0, 0x00, 0xff, 0, 0x00, 0], FINISH.to_vec()];
    assert_eq!(keyboard.take_frames(), expected);
}

#[test]
fn k8890_move_right_by_the_most() {
    let mut keyboard = ready_8890();
    let expansion = mouse(MouseAction::Move { dx: 127, dy: 0 }, None);
    assert_eq!(keyboard.bind_key(0, Key::Button(0), &expansion), Ok(()));
    let frames = keyboard.take_frames();
    assert_eq!(frames[1], vec![0x03, 1, 0x13, 0, 0x00, 0x7f, 0, 0x00, 0]);
}

#[test]
fn k8890_move_sends_the_vertical_distance_first() {
    let mut keyboard = ready_8890();
    let expansion = mouse(MouseAction::Move { dx: 5, dy: -3 }, Some(MouseModifier::Alt));
    assert_eq!(keyboard.bind_key(1, Key::Button(0), &expansion), Ok(()));
    let frames = keyboard.take_frames();
    assert_eq!(frames[1], vec![0x03, 1, 0x23, 0, 0xfd, 0x05, 0, 0x04, 0]);
}

#[test]
fn k8890_move_wraps_long_distances() {
    let mut keyboard = ready_8890();
    let expansion = mouse(MouseAction::Move { dx: 300, dy: -128 }, None);
    assert_eq!(keyboard.bind_key(0, Key::Button(0), &expansion), Ok(()));
    let frames = keyboard.take_frames();
    assert_eq!(frames[1], vec![0x03, 1, 0x13, 0, 0x80, 44, 0, 0x00, 0]);
}

#[test]
fn k8890_led_is_unsupported() {
    let mut keyboard = ready_8890();
    for n in [0u8, 1, 2, 255] {
        assert_eq!(keyboard.set_led(n), Err(BindError::UnsupportedFeature));
    }
    assert_eq!(keyboard.take_frames(), Vec::<Vec<u8>>::new());
    assert_eq!(keyboard.get_endpoint(), 0x04);
}

#[test]
fn k8890_bindings_queue_up_in_order() {
    let mut keyboard = Keyboard8890::new(0x04);
    assert_eq!(keyboard.bind_key(0, Key::Button(0), &Macro::Media(0x00e9)), Ok(()));
    let six: Vec<KeyboardPart> = (0..6u8).map(|i| press_8890(0, 0x04 + i)).collect();
    assert_eq!(keyboard.bind_key(1, Key::Button(0), &Macro::Keyboard(six)), Err(BindError::MacroTooLong));
    assert_eq!(keyboard.bind_key(2, Key::Button(1), &Macro::Media(0x00ea)), Ok(()));
    let expected = vec![
        Vec::<u8>::new(),
        start(1),
        vec![0x03, 1, 0x12, 0xe9, 0x00, 0, 0, 0, 0],
        FINISH.to_vec(),
        start(2),
        start(3),
        vec![0x03, 2, 0x32, 0xea, 0x00, 0, 0, 0, 0],
        FINISH.to_vec(),
    ];
    assert_eq!(keyboard.take_frames(), expected);
}

#[test]
fn k8890_and_k884x_differ_behind_one_interface() {
    let mut keyboards: Vec<Box<dyn Keyboard>> =
        vec![Box::new(Keyboard8890::new(0x04)), Box::new(ch57x_keyboard::keyboard::k884x::Keyboard884x::new(0x04))];
    let mut counts = Vec::new();
    for keyboard in keyboards.iter_mut() {
        assert_eq!(keyboard.take_frames(), vec![Vec::<u8>::new()]);
        assert_eq!(keyboard.bind_key(0, Key::Button(0), &Macro::Media(0x00e9)), Ok(()));
        counts.push(keyboard.take_frames().len());
    }
    assert_eq!(counts, vec![3, 4]);
}
