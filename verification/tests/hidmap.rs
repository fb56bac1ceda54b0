use beaglewing::hidmap::{
    action_name, button_to_bit, is_modifier_usage, keycode_to_usage, map_code, Mapped,
};

#[test]
fn letters_digits_rows() {
    assert_eq!(keycode_to_usage(30), Some(0x04)); // a
    assert_eq!(keycode_to_usage(50), Some(0x10)); // m
    assert_eq!(keycode_to_usage(2), Some(0x1e)); // 1
    assert_eq!(keycode_to_usage(11), Some(0x27)); // 0
}

#[test]
fn modifiers_and_ranges() {
    assert_eq!(keycode_to_usage(29), Some(0xe0));
    assert_eq!(keycode_to_usage(126), Some(0xe7));
    assert!(is_modifier_usage(0xe3));
    assert!(!is_modifier_usage(0x04));
    assert_eq!(keycode_to_usage(59), Some(0x3a)); // F1
    assert_eq!(keycode_to_usage(68), Some(0x43)); // F10
    assert_eq!(keycode_to_usage(88), Some(0x45)); // F12
    assert_eq!(keycode_to_usage(71), Some(0x5f)); // KP7
    assert_eq!(keycode_to_usage(82), Some(0x62)); // KP0
}

#[test]
fn unmapped_returns_none() {
    assert_eq!(keycode_to_usage(240), None);
    assert_eq!(button_to_bit(0x113), None); // BTN_SIDE unsupported for now
}

#[test]
fn buttons() {
    assert_eq!(button_to_bit(0x110), Some(0x01));
    assert_eq!(button_to_bit(0x111), Some(0x02));
    assert_eq!(button_to_bit(0x112), Some(0x04));
}

#[test]
fn usages_are_distinct_over_all_keycodes() {
    let mut seen = Vec::new();
    for code in 0..=u16::MAX {
        if let Some(u) = keycode_to_usage(code) {
            assert!(u >= 4);
            assert!(!seen.contains(&u), "usage {u} twice");
            seen.push(u);
        }
    }
    assert_eq!(seen.len(), 105);
    assert_eq!(seen.iter().filter(|&&u| is_modifier_usage(u)).count(), 8);
}

#[test]
fn emergency_keys_are_where_they_should_be() {
    assert_eq!(keycode_to_usage(29), Some(0xe0)); // LCtrl
    assert_eq!(keycode_to_usage(56), Some(0xe2)); // LAlt
    assert_eq!(keycode_to_usage(43), Some(0x31)); // Backslash
}

#[test]
fn modifier_range_ends() {
    assert!(!is_modifier_usage(0xdf));
    assert!(is_modifier_usage(0xe0));
    assert!(is_modifier_usage(0xe7));
    assert!(!is_modifier_usage(0xe8));
}

#[test]
fn codes_and_actions_are_named() {
    assert_eq!(map_code(30), Mapped::Usage(4));
    assert_eq!(map_code(0x111), Mapped::Button(2));
    assert_eq!(map_code(0x113), Mapped::Unmapped);
    assert_eq!([action_name(0), action_name(1), action_name(2)], ["up", "down", "repeat"]);
}
