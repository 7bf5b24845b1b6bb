use rsl::HashIcon;
use rsl::RandomSource;
use rsl::SettingValue;
use rsl::release::default_release_notes_editor;
use rsl::release::default_repo_name;
use rsl::release::default_repo_owner;
use rsl::text::parse_u64;
use rsl::text::trimmed;
use rsl::values::coerce_token;

fn coerced(tok: &str) -> SettingValue {
    coerce_token(tok.to_string())
}

#[test]
fn coercion_priority_order() {
    assert!(coerced("false").value_eq(&SettingValue::Bool(false)));
    assert!(coerced("true").value_eq(&SettingValue::Bool(true)));
    assert!(coerced("42").value_eq(&SettingValue::Int(42)));
    assert!(coerced("007").value_eq(&SettingValue::Int(7)));
    assert!(coerced("+5").value_eq(&SettingValue::Int(5)));
    assert!(coerced("0").value_eq(&SettingValue::Int(0)));
    assert!(coerced("glitchless").value_eq(&SettingValue::Str("glitchless".to_string())));
    assert!(coerced("True").value_eq(&SettingValue::Str("True".to_string())));
    assert!(coerced("-3").value_eq(&SettingValue::Str("-3".to_string())));
    assert!(coerced("").value_eq(&SettingValue::Str("".to_string())));
}

#[test]
fn unsigned_parsing_bounds() {
    assert_eq!(parse_u64("18446744073709551615"), Some(u64::MAX));
    assert_eq!(parse_u64("18446744073709551616"), None);
    assert_eq!(parse_u64("99999999999999999999999"), None);
    assert_eq!(parse_u64(""), None);
    assert_eq!(parse_u64("+"), None);
    assert_eq!(parse_u64("12a"), None);
    assert_eq!(parse_u64("1 2"), None);
    assert_eq!(parse_u64("+0"), Some(0));
}

#[test]
fn oversized_numeric_token_stays_text() {
    assert!(coerced("18446744073709551616").value_eq(&SettingValue::Str(
        "18446744073709551616".to_string(),
    )));
}

#[test]
fn trimming_blanks() {
    assert_eq!(trimmed("  a b\t\n"), "a b");
    assert_eq!(trimmed("abc"), "abc");
    assert_eq!(trimmed("   "), "");
    assert_eq!(trimmed(""), "");
    assert_eq!(trimmed("\r\nx\r\n"), "x");
}

#[test]
fn value_equality_is_structural() {
    assert!(SettingValue::List(vec!["a".to_string()]).value_eq(&SettingValue::List(vec![
        "a".to_string(),
    ])));
    assert!(!SettingValue::List(vec!["a".to_string()]).value_eq(&SettingValue::List(vec![
        "b".to_string(),
    ])));
    assert!(!SettingValue::Int(1).value_eq(&SettingValue::Str("1".to_string())));
    assert!(!SettingValue::Bool(true).value_eq(&SettingValue::Str("true".to_string())));
}

#[test]
fn icon_index_wraps() {
    assert_eq!(HashIcon::from_index(0), HashIcon::DekuStick);
    assert_eq!(HashIcon::from_index(31), HashIcon::BigMagic);
    assert_eq!(HashIcon::from_index(32), HashIcon::DekuStick);
    assert_eq!(HashIcon::from_index(30), HashIcon::DungeonMap);
}

#[test]
fn icon_random_uses_one_draw() {
    let mut rng = RandomSource::from_draws(vec![5, 6]);
    assert_eq!(HashIcon::random(&mut rng), HashIcon::Bombchu);
    assert_eq!(HashIcon::random(&mut rng), HashIcon::Longshot);
    // the sequence is exhausted: further draws read as zero
    assert_eq!(HashIcon::random(&mut rng), HashIcon::DekuStick);
}

#[test]
fn release_defaults() {
    assert_eq!(
        default_release_notes_editor(),
        "C:\\Program Files\\Microsoft VS Code\\bin\\code.cmd",
    );
    assert_eq!(default_repo_owner(), "matthewkirby");
    assert_eq!(default_repo_name(), "plando-random-settings");
}
