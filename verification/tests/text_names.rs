use corsair_top::text::{model_name, str_contains, trim_nul_chars};

#[test]
fn trailing_nuls_dropped() {
    assert_eq!(trim_nul_chars("AX1500i\0\0"), "AX1500i");
    assert_eq!(trim_nul_chars("\0\0"), "");
    assert_eq!(trim_nul_chars("A\0B"), "A\0B");
    assert_eq!(trim_nul_chars("é\0"), "é");
}

#[test]
fn model_name_from_reply() {
    assert_eq!(model_name(b"AX1600i"), "AX1600i");
    assert_eq!(model_name(b"AX1500\0"), "AX1500");
    assert_eq!(model_name(&[0xe2, 0x00]), "\u{fffd}");
}

#[test]
fn model_name_replaces_invalid_utf8() {
    assert_eq!(model_name(&[0x41, 0xff, 0x42, 0x00]), "A\u{fffd}B");
}

#[test]
fn text_search() {
    assert!(str_contains("Corsair AX1600i", "AX1600"));
    assert!(!str_contains("AX1500i", "AX1600"));
    assert!(str_contains("é AX1600", "AX1600"));
    assert!(str_contains("", ""));
}
