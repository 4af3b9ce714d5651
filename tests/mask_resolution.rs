use io_component::mask::{parse_hex_u16, resolve_config_mask, MaskResolution};

fn strings(items: &[&str]) -> Vec<String> {
    items.iter().map(|s| s.to_string()).collect()
}

fn resolve(keys: &[&str], values: &[&str]) -> MaskResolution {
    resolve_config_mask(&strings(keys), &strings(values))
}

#[test]
fn mode_output_gives_all_outputs() {
    let r = resolve(&["mode"], &["output"]);
    assert_eq!(r, MaskResolution { mask: 0x0000, fallback: false });
}

#[test]
fn mode_input_gives_all_inputs() {
    let r = resolve(&["mode"], &["input"]);
    assert_eq!(r, MaskResolution { mask: 0xffff, fallback: false });
}

#[test]
fn any_other_mode_gives_all_inputs() {
    let r = resolve(&["mode"], &["whatever"]);
    assert_eq!(r, MaskResolution { mask: 0xffff, fallback: false });
}

#[test]
fn mask_option_is_read_as_hex() {
    let r = resolve(&["mask"], &["00FF"]);
    assert_eq!(r, MaskResolution { mask: 0x00ff, fallback: false });
    let r = resolve(&["mask"], &["FF00"]);
    assert_eq!(r.mask, 0xff00);
}

#[test]
fn invalid_mask_falls_back_to_all_outputs_with_warning() {
    let r = resolve(&["mask"], &["zz"]);
    assert_eq!(r, MaskResolution { mask: 0x0000, fallback: true });
}

#[test]
fn missing_options_fall_back_to_all_outputs_with_warning() {
    let r = resolve(&[], &[]);
    assert_eq!(r, MaskResolution { mask: 0x0000, fallback: true });
    let r = resolve(&["speed"], &["fast"]);
    assert_eq!(r, MaskResolution { mask: 0x0000, fallback: true });
}

#[test]
fn mode_takes_precedence_over_mask() {
    let r = resolve(&["mask", "mode"], &["00FF", "output"]);
    assert_eq!(r, MaskResolution { mask: 0x0000, fallback: false });
}

#[test]
fn repeated_option_keeps_last_value() {
    let r = resolve(&["mask", "mask"], &["0001", "0F0F"]);
    assert_eq!(r.mask, 0x0f0f);
}

#[test]
fn keys_without_values_are_ignored() {
    let r = resolve(&["mask", "mode"], &["0F0F"]);
    assert_eq!(r, MaskResolution { mask: 0x0f0f, fallback: false });
}

#[test]
fn hex_literals() {
    assert_eq!(parse_hex_u16("00FF"), Some(0x00ff));
    assert_eq!(parse_hex_u16("ffff"), Some(0xffff));
    assert_eq!(parse_hex_u16("+1a"), Some(0x1a));
    assert_eq!(parse_hex_u16("000000000001"), Some(1));
    assert_eq!(parse_hex_u16("0"), Some(0));
}

#[test]
fn hex_literals_rejected() {
    assert_eq!(parse_hex_u16(""), None);
    assert_eq!(parse_hex_u16("+"), None);
    assert_eq!(parse_hex_u16("-1"), None);
    assert_eq!(parse_hex_u16("10000"), None);
    assert_eq!(parse_hex_u16("zz"), None);
    assert_eq!(parse_hex_u16("0x10"), None);
    assert_eq!(parse_hex_u16("1\u{e9}"), None);
    assert_eq!(parse_hex_u16(" 1"), None);
}

#[test]
fn hex_literals_agree_with_std() {
    for text in ["0", "7", "aB", "+ff", "FFFF", "10000", "", "+", "g", "++1", "1+", "12345"] {
        assert_eq!(parse_hex_u16(text), u16::from_str_radix(text, 16).ok(), "{}", text);
    }
}
