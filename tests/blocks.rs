use statusbar::output::{error_output, map_optional, map_optional_quotes, ModuleOutput};
use statusbar::text::{decimal_text, padded_decimal_text};

#[test]
fn block_without_options() {
    let o = ModuleOutput::new("hi".to_string());
    assert_eq!(o.to_block(), "{\"full_text\": \"hi\"}");
}

#[test]
fn block_with_all_options() {
    let o = ModuleOutput::new("x".to_string())
        .with_color_fg("#111111".to_string())
        .with_color_bg("#222222".to_string())
        .with_border("#333333".to_string())
        .with_separator(false)
        .with_separator_block_width(12);
    assert_eq!(
        o.to_block(),
        "{\"full_text\": \"x\", \"color\": \"#111111\", \"background\": \"#222222\", \"border\": \"#333333\", \"separator\": false, \"separator_block_width\": 12}"
    );
}

#[test]
fn block_with_some_options_keeps_order() {
    let o = ModuleOutput::new("x".to_string())
        .with_separator_block_width(0)
        .with_separator(true)
        .with_border("#000000".to_string());
    assert_eq!(
        o.to_block(),
        "{\"full_text\": \"x\", \"border\": \"#000000\", \"separator\": true, \"separator_block_width\": 0}"
    );
}

#[test]
fn with_content_replaces_text() {
    let o = ModuleOutput::new("old".to_string()).with_content("new".to_string());
    assert_eq!(o.content(), "new");
}

#[test]
fn error_block_uses_error_color() {
    assert_eq!(
        error_output("boom".to_string()).to_block(),
        "{\"full_text\": \"boom\", \"color\": \"#ff0000\"}"
    );
}

#[test]
fn optional_entries() {
    assert_eq!(map_optional("k", Some("1".to_string())), ", \"k\": 1");
    assert_eq!(map_optional("k", None), "");
    assert_eq!(map_optional_quotes("k", Some("v".to_string())), ", \"k\": \"v\"");
    assert_eq!(map_optional_quotes("k", None), "");
}

#[test]
fn decimal_rendering() {
    assert_eq!(decimal_text(0), "0");
    assert_eq!(decimal_text(7), "7");
    assert_eq!(decimal_text(1024), "1024");
    assert_eq!(decimal_text(u64::MAX as u128), "18446744073709551615");
    assert_eq!(padded_decimal_text(5, 3), "  5");
    assert_eq!(padded_decimal_text(100, 3), "100");
    assert_eq!(padded_decimal_text(12345, 3), "12345");
}
