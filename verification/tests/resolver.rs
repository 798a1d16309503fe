use workspace_strip::identity::{
    find_separator, get_name_key, get_name_key_from_workspace, parse_identity, IdentityCache,
    ParseError, PLACEHOLDER,
};
use workspace_strip::text::{decimal_string, parse_usize, strip_ascii, trim_newlines};
use workspace_strip::visibility::LiveWorkspace;

fn placeholder() -> String {
    PLACEHOLDER.to_string()
}

#[test]
fn plain_number_is_key_and_label() {
    let mut cache = IdentityCache::new();
    assert_eq!(get_name_key(&mut cache, &10, "7"), Ok((7, "7".to_string())));
    assert_eq!(get_name_key(&mut cache, &11, "0"), Ok((0, "0".to_string())));
    assert_eq!(get_name_key(&mut cache, &12, "123"), Ok((123, "123".to_string())));
}

#[test]
fn every_small_number_resolves_to_itself() {
    let mut cache = IdentityCache::new();
    for n in 0usize..300 {
        let name = decimal_string(n);
        assert_eq!(name, n.to_string());
        assert_eq!(get_name_key(&mut cache, &(n + 1000), &name), Ok((n, name.clone())));
    }
}

#[test]
fn ascii_description_gives_placeholder() {
    let mut cache = IdentityCache::new();
    assert_eq!(get_name_key(&mut cache, &1, "3;web"), Ok((3, placeholder())));
    assert_eq!(get_name_key(&mut cache, &2, "4;"), Ok((4, placeholder())));
    assert_eq!(get_name_key(&mut cache, &3, "5;a;b c"), Ok((5, placeholder())));
    assert_eq!(placeholder(), "\u{f111}");
}

#[test]
fn glyph_after_description_is_label() {
    let mut cache = IdentityCache::new();
    assert_eq!(get_name_key(&mut cache, &1, "3;abc★"), Ok((3, "★".to_string())));
    assert_eq!(get_name_key(&mut cache, &2, "8;★ mail ✉;x"), Ok((8, "★✉".to_string())));
}

#[test]
fn split_is_at_first_separator() {
    assert_eq!(find_separator("12;a;b"), Some(2));
    assert_eq!(find_separator(";"), Some(0));
    assert_eq!(find_separator("12"), None);
    assert_eq!(find_separator("★;"), Some(1));
    assert_eq!(parse_identity("2;é;3"), Ok((2, "é".to_string())));
}

#[test]
fn cache_is_write_once() {
    let mut cache = IdentityCache::new();
    let first = get_name_key(&mut cache, &42, "3;abc★");
    assert_eq!(first, Ok((3, "★".to_string())));
    assert_eq!(get_name_key(&mut cache, &42, "9"), first);
    assert_eq!(get_name_key(&mut cache, &42, "not a number"), first);
    assert_eq!(get_name_key(&mut cache, &43, "9"), Ok((9, "9".to_string())));
}

#[test]
fn failed_resolution_is_not_remembered() {
    let mut cache = IdentityCache::new();
    assert_eq!(get_name_key(&mut cache, &5, "abc"), Err(ParseError {}));
    assert_eq!(get_name_key(&mut cache, &5, "6"), Ok((6, "6".to_string())));
}

#[test]
fn names_without_a_number_are_rejected() {
    let mut cache = IdentityCache::new();
    assert_eq!(get_name_key(&mut cache, &1, ""), Err(ParseError {}));
    assert_eq!(get_name_key(&mut cache, &1, "web"), Err(ParseError {}));
    assert_eq!(get_name_key(&mut cache, &1, ";★"), Err(ParseError {}));
    assert_eq!(get_name_key(&mut cache, &1, "x;★"), Err(ParseError {}));
    assert_eq!(get_name_key(&mut cache, &1, "-1"), Err(ParseError {}));
    assert_eq!(get_name_key(&mut cache, &1, "1 "), Err(ParseError {}));
    assert_eq!(get_name_key(&mut cache, &1, "+"), Err(ParseError {}));
}

#[test]
fn number_parsing_matches_std() {
    let max = usize::MAX.to_string();
    let over = format!("{}0", max);
    let mut bumped = max.clone().into_bytes();
    let last = bumped.len() - 1;
    bumped[last] += 1;
    let bumped = String::from_utf8(bumped).unwrap();
    let cases = [
        "0", "7", "007", "+5", "+", "", "-0", "12a", "a12", " 1", "1_000", "++1", "+-1",
        "18446744073709551615", "18446744073709551616", "99999999999999999999999",
        "0000000000000000000000000000000001", "١٢", "1;2",
        max.as_str(), over.as_str(), bumped.as_str(),
    ];
    for case in cases {
        assert_eq!(parse_usize(case), case.parse::<usize>().ok(), "{:?}", case);
    }
    assert_eq!(parse_usize("+5"), Some(5));
    assert_eq!(parse_usize("007"), Some(7));
    assert_eq!(parse_usize(&max), Some(usize::MAX));
    assert_eq!(parse_usize(&over), None);
}

#[test]
fn decimal_notation_is_exact() {
    assert_eq!(decimal_string(0), "0");
    assert_eq!(decimal_string(9), "9");
    assert_eq!(decimal_string(10), "10");
    assert_eq!(decimal_string(4096), "4096");
    assert_eq!(decimal_string(usize::MAX), usize::MAX.to_string());
}

#[test]
fn ascii_is_stripped_and_order_kept() {
    assert_eq!(strip_ascii("a★b✉c"), "★✉");
    assert_eq!(strip_ascii("plain"), "");
    assert_eq!(strip_ascii(""), "");
    assert_eq!(strip_ascii("\u{7f}\u{80}"), "\u{80}");
}

#[test]
fn newlines_are_trimmed() {
    let mut text = "a\nb\n\nc\n".to_string();
    trim_newlines(&mut text);
    assert_eq!(text, "abc");
    let mut text = "\n".to_string();
    trim_newlines(&mut text);
    assert_eq!(text, "");
    let mut text = "no breaks ★\r".to_string();
    trim_newlines(&mut text);
    assert_eq!(text, "no breaks ★\r");
}

#[test]
fn live_workspace_resolves_by_id_and_name() {
    let mut cache = IdentityCache::new();
    let w = LiveWorkspace {
        id: 77,
        name: "2;term ★".to_string(),
        output: "M1".to_string(),
        focused: false,
        urgent: false,
        visible: true,
    };
    assert_eq!(get_name_key_from_workspace(&mut cache, &w), Ok((2, "★".to_string())));
    assert_eq!(get_name_key(&mut cache, &77, "5"), Ok((2, "★".to_string())));
}
