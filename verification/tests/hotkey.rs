use lux::hotkey::{hotkey_from_parts, parse_hotkey, Hotkey, ModifierFlags, COMMAND_FLAG, SHIFT_FLAG};
use lux::keycodes;

#[test]
fn test_hotkey_default() {
    let hotkey = Hotkey::default();
    assert_eq!(hotkey.keycode, keycodes::SPACE);
    assert!(hotkey.modifiers.command);
    assert!(hotkey.modifiers.shift);
}

#[test]
fn test_parse_hotkey_cmd_space() {
    let hotkey = parse_hotkey("cmd+space").unwrap();
    assert_eq!(hotkey.keycode, keycodes::SPACE);
    assert!(hotkey.modifiers.command);
}

#[test]
fn test_parse_hotkey_ctrl_shift_p() {
    let hotkey = parse_hotkey("ctrl+shift+p").unwrap();
    assert_eq!(hotkey.keycode, keycodes::P);
    assert!(hotkey.modifiers.control);
    assert!(hotkey.modifiers.shift);
}

#[test]
fn test_parse_hotkey_alt_space() {
    let hotkey = parse_hotkey("alt+space").unwrap();
    assert_eq!(hotkey.keycode, keycodes::SPACE);
    assert!(hotkey.modifiers.option);
}

#[test]
fn test_parse_hotkey_invalid() {
    assert!(parse_hotkey("invalid").is_none());
    assert!(parse_hotkey("cmd+invalid").is_none());
}

#[test]
fn parse_trims_and_lowercases_parts() {
    let hotkey = parse_hotkey(" Cmd + Shift + Space ").unwrap();
    assert_eq!(hotkey, Hotkey::default());
    let hotkey = parse_hotkey("\u{2318}+\u{21E7}+esc").unwrap();
    assert_eq!(hotkey.keycode, keycodes::ESCAPE);
    assert!(hotkey.modifiers.command && hotkey.modifiers.shift);
}

#[test]
fn last_key_part_decides() {
    assert_eq!(parse_hotkey("a+b").unwrap().keycode, keycodes::B);
    assert!(parse_hotkey("a+nokey").is_none());
    assert_eq!(parse_hotkey("nokey+a").unwrap().keycode, keycodes::A);
    assert!(parse_hotkey("cmd+shift").is_none());
    let parts = vec!["ctrl".to_string(), "return".to_string()];
    let hk = hotkey_from_parts(&parts).unwrap();
    assert_eq!(hk.keycode, keycodes::RETURN);
    assert!(hk.modifiers.control && !hk.modifiers.command);
}

#[test]
fn matching_ignores_other_flags() {
    let hotkey = Hotkey::default();
    let flags = ModifierFlags::from_bits(COMMAND_FLAG | SHIFT_FLAG | 0x10000);
    assert!(hotkey.matches(flags, keycodes::SPACE));
    assert!(!hotkey.matches(ModifierFlags::from_bits(COMMAND_FLAG), keycodes::SPACE));
    assert!(!hotkey.matches(flags, keycodes::TAB));
}

#[test]
fn parts_are_trimmed_of_unicode_white_space() {
    let hotkey = parse_hotkey("\tcmd\u{3000}+\u{a0}space\n").unwrap();
    assert_eq!(hotkey.keycode, keycodes::SPACE);
    assert!(hotkey.modifiers.command);
}
