use try_ui::input::{
    button_inputs, is_settings_toggle, keycode, settings_after_keystroke, Input, Keys, Keystroke,
    Modifiers, MouseButton, CAPS_LOCK, CONTROL, SHIFT, SUPER,
};

fn none() -> Modifiers {
    Modifiers { control: false, alt: false, shift: false, platform: false }
}

fn stroke(key: &str, modifiers: Modifiers) -> Keystroke {
    Keystroke { modifiers, key: key.to_string() }
}

#[test]
fn keycodes_are_xt_set1_with_the_extended_bit() {
    assert_eq!(keycode("h"), Some(0x23));
    assert_eq!(keycode("a"), Some(0x1e));
    assert_eq!(keycode("escape"), Some(0x01));
    assert_eq!(keycode("space"), Some(0x39));
    assert_eq!(keycode("up"), Some(0x80 | 0x48));
    assert_eq!(keycode("delete"), Some(0x80 | 0x53));
    assert_eq!(keycode("nonsense"), None);
}

#[test]
fn every_named_key_has_its_code() {
    assert_eq!(keycode("f10"), Some(0x44));
    assert_eq!(keycode("f11"), Some(0x57));
    assert_eq!(keycode("capslock"), Some(CAPS_LOCK));
    assert_eq!(keycode("\\"), Some(0x2b));
    assert_eq!(keycode("'"), Some(0x28));
    assert_eq!(keycode("pagedown"), Some(0xd1));
    assert_eq!(keycode(""), None);
    assert_eq!(keycode("H"), None);
}

#[test]
fn a_key_brings_the_modifiers_up_to_date_first() {
    let mut keys = Keys::new();
    let shifted = Modifiers { shift: true, ..none() };
    assert_eq!(
        keys.key(&stroke("a", shifted), true, false),
        vec![Input::Key { code: SHIFT, down: true }, Input::Key { code: 0x1e, down: true }]
    );
    /* a key going up leaves the modifiers to their own event */
    assert_eq!(keys.key(&stroke("a", none()), false, false), vec![Input::Key { code: 0x1e, down: false }]);
    assert_eq!(keys.held, shifted);
    assert_eq!(
        keys.modifiers_changed(Modifiers { platform: true, control: true, ..none() }, true),
        vec![
            Input::Key { code: SHIFT, down: false },
            Input::Key { code: CONTROL, down: true },
            Input::Key { code: SUPER, down: true },
            Input::Key { code: CAPS_LOCK, down: true },
            Input::Key { code: CAPS_LOCK, down: false },
        ]
    );
}

#[test]
fn nothing_reaches_the_guest_while_the_settings_are_open() {
    let mut keys = Keys::new();
    assert!(keys.key(&stroke("a", none()), true, true).is_empty());
    let toggle = stroke(",", Modifiers { platform: true, ..none() });
    assert!(is_settings_toggle(&toggle));
    assert!(keys.key(&toggle, true, false).is_empty());
    assert!(settings_after_keystroke(false, &toggle));
    assert!(!settings_after_keystroke(true, &toggle));
    assert!(!settings_after_keystroke(true, &stroke("escape", none())));
    assert!(!settings_after_keystroke(false, &stroke("escape", none())));
    assert!(settings_after_keystroke(true, &stroke("a", none())));
    assert!(button_inputs(true, MouseButton::Left, true, Some((1, 2))).is_empty());
}

#[test]
fn a_press_moves_the_pointer_before_the_button() {
    assert_eq!(
        button_inputs(false, MouseButton::Right, true, Some((10, 20))),
        vec![Input::Move { x: 10, y: 20 }, Input::Button { button: 2, down: true }]
    );
    assert_eq!(
        button_inputs(false, MouseButton::Middle, false, Some((10, 20))),
        vec![Input::Button { button: 1, down: false }]
    );
    assert!(button_inputs(false, MouseButton::Other, true, None).is_empty());
}

#[test]
fn each_code_names_one_key_and_only_cursor_keys_are_extended() {
    let names = [
        "escape", "1", "0", "backspace", "tab", "q", "enter", "a", "`", "\\", "z", "/", "space",
        "capslock", "f1", "f10", "f12", "home", "up", "pageup", "left", "right", "end", "down",
        "pagedown", "insert", "delete",
    ];
    let codes: Vec<u32> = names.iter().map(|name| keycode(name).unwrap()).collect();
    for (i, a) in codes.iter().enumerate() {
        for b in &codes[i + 1..] {
            assert_ne!(a, b);
        }
        assert!((0x01..=0xd3).contains(a));
        assert_eq!(a & 0x80 != 0, i >= 17, "{}", names[i]);
    }
    assert_eq!(keycode("A"), None);
    assert_eq!(keycode("Escape"), None);
    assert_eq!(keycode(""), None);
}
