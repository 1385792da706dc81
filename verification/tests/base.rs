use gcit::config::CredentialId;
use gcit::names::{name_order, NameMap, NameOrder, NameSet};
use gcit::object_id::ObjectId;
use gcit::text::{
    after_prefix, contains_ignoring_ascii_case, decimal, equals_ignoring_ascii_case, join,
    same_text, trim_end_of, upper_snake,
};
use gcit::time::{opt_rfc3339, Duration, Timestamp};

#[test]
fn names_are_ordered_by_their_bytes() {
    assert_eq!(name_order("a", "b"), NameOrder::Before);
    assert_eq!(name_order("ab", "a"), NameOrder::After);
    assert_eq!(name_order("a", "a"), NameOrder::Same);
    assert_eq!(name_order("", "a"), NameOrder::Before);
    assert_eq!(name_order("Z", "a"), NameOrder::Before);
    assert_eq!(name_order("z", "\u{e9}"), NameOrder::Before);
    assert_eq!(name_order("\u{ffff}", "\u{10000}"), NameOrder::Before);
}

#[test]
fn name_maps_keep_one_value_for_each_name_in_order() {
    let mut m = NameMap::new();
    assert_eq!(m.insert("b".to_string(), 1), None);
    assert_eq!(m.insert("a".to_string(), 2), None);
    assert_eq!(m.insert("c".to_string(), 3), None);
    assert_eq!(m.insert("b".to_string(), 4), Some(1));
    assert_eq!(m.keys(), vec!["a".to_string(), "b".to_string(), "c".to_string()]);
    assert_eq!(m.len(), 3);
    assert_eq!(m.get("b"), Some(&4));
    assert_eq!(m.get("d"), None);
    assert_eq!(m.remove("b"), Some(4));
    assert_eq!(m.remove("b"), None);
    let mut other = NameMap::new();
    other.insert("c".to_string(), 30);
    other.insert("z".to_string(), 26);
    m.absorb(other);
    let mut keep = NameSet::new();
    keep.insert("c".to_string());
    keep.insert("nobody".to_string());
    let rest = m.split_off_except(&keep);
    assert_eq!(m.into_entries(), vec![("c".to_string(), 30)]);
    assert_eq!(rest.into_entries(), vec![("a".to_string(), 2), ("z".to_string(), 26)]);
}

#[test]
fn name_sets_hold_each_name_once() {
    let mut s = NameSet::new();
    assert!(s.insert("b".to_string()));
    assert!(s.insert("a".to_string()));
    assert!(!s.insert("b".to_string()));
    assert_eq!(s.names(), vec!["a".to_string(), "b".to_string()]);
    assert!(s.remove("a"));
    assert!(!s.remove("a"));
    assert_eq!(s.len(), 1);
}

#[test]
fn texts_are_compared_trimmed_and_joined() {
    assert!(same_text("größe", "größe"));
    assert!(!same_text("größe", "grösse"));
    assert!(equals_ignoring_ascii_case("GitHub", "gitHUB"));
    assert!(!equals_ignoring_ascii_case("É", "é"));
    assert!(contains_ignoring_ascii_case("API Rate LIMIT hit", "rate limit"));
    assert!(contains_ignoring_ascii_case("x", ""));
    assert!(!contains_ignoring_ascii_case("rate", "rate limit"));
    assert_eq!(after_prefix("refs/heads/é", "refs/heads/"), Some("é"));
    assert_eq!(after_prefix("refs", "refs/"), None);
    assert_eq!(trim_end_of("é//", &['/']), "é");
    assert_eq!(trim_end_of("", &['/']), "");
    assert_eq!(join(&vec!["a".to_string(), "b".to_string(), "".to_string()], "; "), "a; b; ");
    assert_eq!(join(&vec![], "; "), "");
}

#[test]
fn numbers_are_written_in_decimal() {
    for n in [0, 7, 10, 99, 100, 65_535, 1_234_567_890, u64::MAX] {
        assert_eq!(decimal(n), n.to_string());
    }
}

#[test]
fn credentials_name_their_environment_variables() {
    assert_eq!(CredentialId::new("env-cred").to_env_var(), "GCIT_CREDENTIAL_ENV_CRED");
    assert_eq!(CredentialId::new("github_pat2").to_env_var(), "GCIT_CREDENTIAL_GITHUB_PAT2");
    assert_eq!(upper_snake("a-zA_9"), "A_ZA_9");
}

#[test]
fn object_ids_are_read_and_written_in_hexadecimal() {
    let id = ObjectId::from_hex(b"00ff0123456789abcdefABCDEF00000000000010").unwrap();
    assert_eq!(id.bytes[1], 0xff);
    assert_eq!(id.bytes[19], 0x10);
    assert_eq!(id.to_hex(), "00ff0123456789abcdefabcdef00000000000010");
    assert!(ObjectId::from_hex(id.to_hex().as_bytes()).unwrap().same(&id));
    assert!(!id.same(&ObjectId::null()));
    assert_eq!(ObjectId::null().to_hex(), "0".repeat(40));
    assert_eq!(
        ObjectId::from_hex(b"").unwrap_err(),
        "A hash sized 0 hexadecimal characters is invalid",
    );
    assert_eq!(
        ObjectId::from_hex("0".repeat(64).as_bytes()).unwrap_err(),
        "A hash sized 64 hexadecimal characters is invalid",
    );
    assert_eq!(
        ObjectId::from_hex("g".repeat(40).as_bytes()).unwrap_err(),
        "Invalid character encountered",
    );
}

#[test]
fn calendar_times_have_bounds_and_an_rfc3339_text() {
    let first = Timestamp::new(-8_334_601_228_800, 0).expect("the first calendar time");
    let last = Timestamp::new(8_210_266_876_799, 1_999_999_999).expect("the last calendar time");
    assert!(first.to_rfc3339().starts_with("-262143-01-01T00:00:00"));
    assert!(last.to_rfc3339().starts_with("+262142-12-31T23:59:60.999999999"));
    assert!(Timestamp::new(-8_334_601_228_801, 0).is_none());
    assert!(Timestamp::new(8_210_266_876_800, 0).is_none());
    assert!(Timestamp::new(0, 1_000_000_000).is_none());
    assert!(Timestamp::new(-1, 1_000_000_000).is_some());
    assert!(Timestamp::new(59, 2_000_000_000).is_none());
    let t = Timestamp::new(1_777_636_800, 500_000_000).unwrap();
    assert_eq!((t.secs(), t.nanos()), (1_777_636_800, 500_000_000));
    assert_eq!(opt_rfc3339(Some(t)).as_deref(), Some("2026-05-01T12:00:00.500+00:00"));
    assert_eq!(opt_rfc3339(None), None);
}

#[test]
fn spans_are_measured_in_nanoseconds() {
    assert_eq!(Duration::from_secs(2).nanos, 2_000_000_000);
    assert_eq!(Duration::from_millis(1500).half(), Duration::from_millis(750));
    assert!(Duration::from_millis(999).is_shorter_than(&Duration::from_secs(1)));
    assert!(!Duration::from_secs(1).is_shorter_than(&Duration::from_secs(1)));
}
