use pocketbook_host::config::{js_path, pak_path, parse_baked, parse_u32, HostConfig};

#[test]
fn decimal_numbers_are_read() {
    assert_eq!(parse_u32("0"), Some(0));
    assert_eq!(parse_u32("375"), Some(375));
    assert_eq!(parse_u32("+5"), Some(5));
    assert_eq!(parse_u32("000000000000007"), Some(7));
    assert_eq!(parse_u32("4294967295"), Some(u32::MAX));
}

#[test]
fn everything_else_is_refused() {
    for text in ["", "+", "-1", "++1", " 1", "1 ", "1_000", "0x10", "4294967296", "42949672950", "1a"] {
        assert_eq!(parse_u32(text), None);
        assert!(text.parse::<u32>().is_err());
    }
    assert_eq!(parse_u32("\u{0661}"), None);
}

#[test]
fn the_configuration_is_read_from_its_strings() {
    assert_eq!(parse_baked("5"), 5);
    let config = HostConfig::from_env("5", "375", "500", "4");
    assert_eq!(
        config,
        HostConfig { host_abi: 5, logical_w: 375, logical_h: 500, density: 4 }
    );
}

#[test]
fn paths_have_defaults() {
    assert_eq!(pak_path(None), "app.pak");
    assert_eq!(js_path(None), "app.js");
    assert_eq!(pak_path(Some(String::from("/mnt/x.pak"))), "/mnt/x.pak");
    assert_eq!(js_path(Some(String::from("/mnt/x.js"))), "/mnt/x.js");
}
