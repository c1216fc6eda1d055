use capdrop::hotkey::{parse_key_code, parse_shortcut, Code, Modifiers, Shortcut};

fn mods(control: bool, alt: bool, shift: bool, super_key: bool) -> Modifiers {
    Modifiers { control, alt, shift, super_key }
}

#[test]
fn default_hotkey_parses() {
    let s = parse_shortcut("Alt+Shift+S").unwrap();
    assert_eq!(s, Shortcut { modifiers: mods(false, true, true, false), key: Code::KeyS });
}

#[test]
fn modifier_names_and_spacing() {
    let s = parse_shortcut(" cmd + Control +f12 ").unwrap();
    assert_eq!(s, Shortcut { modifiers: mods(true, false, false, true), key: Code::F12 });
    let s = parse_shortcut("CTRL+COMMAND+SUPER+space").unwrap();
    assert_eq!(s, Shortcut { modifiers: mods(true, false, false, true), key: Code::Space });
}

#[test]
fn last_key_wins() {
    let s = parse_shortcut("A+Shift+B").unwrap();
    assert_eq!(s, Shortcut { modifiers: mods(false, false, true, false), key: Code::KeyB });
}

#[test]
fn modifiers_alone_are_rejected() {
    assert_eq!(parse_shortcut("Ctrl+Shift"), Err("No key specified in shortcut: Ctrl+Shift".to_string()));
}

#[test]
fn unknown_key_is_rejected_with_its_trimmed_name() {
    assert_eq!(parse_shortcut("Ctrl+ Foo +S"), Err("Unknown key: Foo".to_string()));
    assert_eq!(parse_shortcut(""), Err("Unknown key: ".to_string()));
    assert_eq!(parse_shortcut("Alt++S"), Err("Unknown key: ".to_string()));
}

#[test]
fn key_codes() {
    assert_eq!(parse_key_code("Esc"), Ok(Code::Escape));
    assert_eq!(parse_key_code("escape"), Ok(Code::Escape));
    assert_eq!(parse_key_code("RETURN"), Ok(Code::Enter));
    assert_eq!(parse_key_code("enter"), Ok(Code::Enter));
    assert_eq!(parse_key_code("`"), Ok(Code::Backquote));
    assert_eq!(parse_key_code("BackQuote"), Ok(Code::Backquote));
    assert_eq!(parse_key_code("Tab"), Ok(Code::Tab));
    assert_eq!(parse_key_code("0"), Ok(Code::Digit0));
    assert_eq!(parse_key_code("9"), Ok(Code::Digit9));
    assert_eq!(parse_key_code("F1"), Ok(Code::F1));
    assert_eq!(parse_key_code("z"), Ok(Code::KeyZ));
    assert_eq!(parse_key_code("F13"), Err("Unknown key: F13".to_string()));
    assert_eq!(parse_key_code(" a"), Err("Unknown key:  a".to_string()));
}

#[test]
fn kelvin_sign_lowercases_to_k() {
    assert_eq!(parse_key_code("\u{212a}"), Ok(Code::KeyK));
}

#[test]
fn order_of_parts_does_not_matter() {
    let a = parse_shortcut("Alt+Shift+S").unwrap();
    assert_eq!(parse_shortcut("S+shift+ALT").unwrap(), a);
    assert_eq!(parse_shortcut("Shift + S + Alt").unwrap(), a);
}
