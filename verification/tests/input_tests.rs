use sample_terminal::input::{
    encode_cursor_key, encode_function_key_ss3, encode_paste, encode_special_key, encode_tilde_key,
    modifier_parameter, reduce_selection_phase, special_key, translate_terminal_input,
    InputModifiers, SelectionPhase, SpecialKey,
};

#[test]
fn translates_arrow_keys_to_terminal_sequences() {
    assert_eq!(
        translate_terminal_input("\u{f700}", InputModifiers::default(), false),
        Some(b"\x1b[A".to_vec())
    );
    assert_eq!(
        translate_terminal_input("\u{f701}", InputModifiers::default(), false),
        Some(b"\x1b[B".to_vec())
    );
    assert_eq!(
        translate_terminal_input("\u{f702}", InputModifiers::default(), false),
        Some(b"\x1b[D".to_vec())
    );
    assert_eq!(
        translate_terminal_input("\u{f703}", InputModifiers::default(), false),
        Some(b"\x1b[C".to_vec())
    );
}

#[test]
fn preserves_plain_text_input() {
    assert_eq!(
        translate_terminal_input("abc", InputModifiers::default(), false),
        Some(b"abc".to_vec())
    );
    assert_eq!(
        translate_terminal_input("", InputModifiers::default(), false),
        None
    );
}

#[test]
fn wraps_paste_only_when_bracketed_mode_is_enabled() {
    assert_eq!(encode_paste("hello", false), Some(b"hello".to_vec()));
    assert_eq!(
        encode_paste("hello", true),
        Some(b"\x1b[200~hello\x1b[201~".to_vec())
    );
    assert_eq!(encode_paste("", true), None);
}

#[test]
fn translates_navigation_and_function_keys() {
    assert_eq!(
        translate_terminal_input("\u{f729}", InputModifiers::default(), false),
        Some(b"\x1b[H".to_vec())
    );
    assert_eq!(
        translate_terminal_input("\u{f72b}", InputModifiers::default(), false),
        Some(b"\x1b[F".to_vec())
    );
    assert_eq!(
        translate_terminal_input("\u{f72c}", InputModifiers::default(), false),
        Some(b"\x1b[5~".to_vec())
    );
    assert_eq!(
        translate_terminal_input("\u{f72d}", InputModifiers::default(), false),
        Some(b"\x1b[6~".to_vec())
    );
    assert_eq!(
        translate_terminal_input("\u{f728}", InputModifiers::default(), false),
        Some(b"\x1b[3~".to_vec())
    );
    assert_eq!(
        translate_terminal_input("\u{f704}", InputModifiers::default(), false),
        Some(b"\x1bOP".to_vec())
    );
    assert_eq!(
        translate_terminal_input("\u{f70f}", InputModifiers::default(), false),
        Some(b"\x1b[24~".to_vec())
    );
}

#[test]
fn application_cursor_mode_changes_arrow_and_home_end_sequences() {
    assert_eq!(
        translate_terminal_input("\u{f700}", InputModifiers::default(), true),
        Some(b"\x1bOA".to_vec())
    );
    assert_eq!(
        translate_terminal_input("\u{f729}", InputModifiers::default(), true),
        Some(b"\x1bOH".to_vec())
    );
    assert_eq!(
        translate_terminal_input("\u{f72b}", InputModifiers::default(), true),
        Some(b"\x1bOF".to_vec())
    );
}

#[test]
fn modifiers_expand_special_key_escape_sequences() {
    assert_eq!(
        translate_terminal_input(
            "\u{f700}",
            InputModifiers {
                shift: true,
                ..InputModifiers::default()
            },
            false
        ),
        Some(b"\x1b[1;2A".to_vec())
    );
    assert_eq!(
        translate_terminal_input(
            "\u{f729}",
            InputModifiers {
                control: true,
                ..InputModifiers::default()
            },
            true
        ),
        Some(b"\x1b[1;5H".to_vec())
    );
    assert_eq!(
        translate_terminal_input(
            "\u{f728}",
            InputModifiers {
                option: true,
                ..InputModifiers::default()
            },
            false
        ),
        Some(b"\x1b[3;3~".to_vec())
    );
    assert_eq!(
        translate_terminal_input(
            "\u{f704}",
            InputModifiers {
                shift: true,
                control: true,
                ..InputModifiers::default()
            },
            false
        ),
        Some(b"\x1b[1;6P".to_vec())
    );
    assert_eq!(
        translate_terminal_input(
            "\u{f70f}",
            InputModifiers {
                shift: true,
                option: true,
                control: true,
                ..InputModifiers::default()
            },
            false
        ),
        Some(b"\x1b[24;8~".to_vec())
    );
}

#[test]
fn command_modifier_alone_adds_no_parameter() {
    let command = InputModifiers {
        command: true,
        ..InputModifiers::default()
    };
    assert_eq!(modifier_parameter(command), None);
    assert_eq!(
        translate_terminal_input("\u{f700}", command, false),
        Some(b"\x1b[A".to_vec())
    );
}

#[test]
fn modifier_parameter_sums_held_keys() {
    assert_eq!(modifier_parameter(InputModifiers::default()), None);
    let all = InputModifiers {
        shift: true,
        control: true,
        option: true,
        command: true,
    };
    assert_eq!(modifier_parameter(all), Some(8));
}

#[test]
fn special_key_recognizes_function_key_codes() {
    assert_eq!(special_key(0xF700), Some(SpecialKey::ArrowUp));
    assert_eq!(special_key(0xF72D), Some(SpecialKey::PageDown));
    assert_eq!(special_key(0xF704), Some(SpecialKey::F(1)));
    assert_eq!(special_key(0xF70F), Some(SpecialKey::F(12)));
    assert_eq!(special_key(0xF710), None);
    assert_eq!(special_key('a' as u32), None);
}

#[test]
fn remaining_function_keys_use_tilde_codes() {
    let none = InputModifiers::default();
    assert_eq!(encode_special_key(SpecialKey::F(2), none, false), b"\x1bOQ".to_vec());
    assert_eq!(encode_special_key(SpecialKey::F(4), none, false), b"\x1bOS".to_vec());
    assert_eq!(encode_special_key(SpecialKey::F(5), none, false), b"\x1b[15~".to_vec());
    assert_eq!(encode_special_key(SpecialKey::F(6), none, false), b"\x1b[17~".to_vec());
    assert_eq!(encode_special_key(SpecialKey::F(11), none, false), b"\x1b[23~".to_vec());
}

#[test]
fn key_encoders_place_modifier_parameter() {
    assert_eq!(encode_cursor_key(b'A', None, true), b"\x1bOA".to_vec());
    assert_eq!(encode_cursor_key(b'A', Some(2), true), b"\x1b[1;2A".to_vec());
    assert_eq!(encode_function_key_ss3(b'P', None), b"\x1bOP".to_vec());
    assert_eq!(encode_function_key_ss3(b'P', Some(3)), b"\x1b[1;3P".to_vec());
    assert_eq!(encode_tilde_key(5, None), b"\x1b[5~".to_vec());
    assert_eq!(encode_tilde_key(24, Some(8)), b"\x1b[24;8~".to_vec());
}

#[test]
fn multi_character_text_with_function_key_is_sent_as_text() {
    assert_eq!(
        translate_terminal_input("a\u{f700}", InputModifiers::default(), false),
        Some("a\u{f700}".as_bytes().to_vec())
    );
}

#[test]
fn selection_phases_reduce_to_anchor_and_focus() {
    let start = reduce_selection_phase(None, None, false, SelectionPhase::Start, Some((1, 2)));
    assert_eq!(start, (Some((1, 2)), Some((1, 2)), true));
    let update = reduce_selection_phase(
        start.0,
        start.1,
        start.2,
        SelectionPhase::Update,
        Some((3, 4)),
    );
    assert_eq!(update, (Some((1, 2)), Some((3, 4)), true));
    let end = reduce_selection_phase(update.0, update.1, update.2, SelectionPhase::End, Some((5, 0)));
    assert_eq!(end, (Some((1, 2)), Some((5, 0)), false));
    let cleared = reduce_selection_phase(end.0, end.1, end.2, SelectionPhase::Start, None);
    assert_eq!(cleared, (None, None, false));
}
