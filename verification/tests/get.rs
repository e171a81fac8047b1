use shopware_redis_cli_helper::get::{
    expires_at, expires_from, header_line, header_with, json_fields, outcome, GetArgs, Outcome,
};
use shopware_redis_cli_helper::inspect::KeyValue;
use shopware_redis_cli_helper::moment::LAST_SECOND;
use shopware_redis_cli_helper::value::Encoding;

fn value() -> KeyValue {
    let mut v = KeyValue::new("k", "string", Some(-1), Some(1500));
    v.body = "body".to_string();
    v
}

fn args(hex: bool, raw: bool, header: bool, json: bool) -> GetArgs {
    GetArgs { key: "k".to_string(), hex, raw, header, json }
}

#[test]
fn header_lists_what_is_known() {
    let mut v = value();
    assert_eq!(header_line(&v), "# type=string  size=1.50 kB  ttl=persistent");
    v.size_bytes = None;
    v.elements = Some(3);
    v.encoding = Some(Encoding::Gzip);
    v.stream_offset = Some(0);
    v.is_binary = true;
    assert_eq!(
        header_with(&v, "T"),
        "# type=string  elements=3  ttl=T  decompressed=gzip  binary"
    );
    v.stream_offset = Some(52);
    v.encoding = Some(Encoding::Zlib);
    v.is_binary = false;
    assert_eq!(
        header_with(&v, "T"),
        "# type=string  elements=3  ttl=T  decompressed=zlib/deflate (embedded @ 52)"
    );
    v.encoding = Some(Encoding::Plain);
    assert_eq!(header_with(&v, "T"), "# type=string  elements=3  ttl=T");
}

#[test]
fn expiry_is_given_for_keys_that_expire() {
    assert_eq!(expires_at(None), None);
    assert_eq!(expires_at(Some(-1)), None);
    assert_eq!(expires_at(Some(-2)), None);
    let t = expires_at(Some(60)).unwrap();
    assert!(t.contains('T') && t.len() >= 25, "{t}");
    let year = |s: &str| s[..4].parse::<u32>().unwrap();
    let later = expires_at(Some(1_000_000_000)).unwrap();
    assert!(year(&later) - year(&t) >= 31);
    assert_eq!(expires_at(Some(i64::MAX)), None);
    assert_eq!(expires_at(Some(0)), None);
}

#[test]
fn expiry_is_the_clock_plus_the_ttl() {
    let at = |ttl, now, nanos, offset| expires_from(ttl, now, nanos, offset);
    assert_eq!(at(Some(60), 0, 0, 0).as_deref(), Some("1970-01-01T00:01:00+00:00"));
    assert_eq!(at(Some(60), 0, 0, 7200).as_deref(), Some("1970-01-01T02:01:00+02:00"));
    assert_eq!(at(Some(60), 0, 0, -1800).as_deref(), Some("1969-12-31T23:31:00-00:30"));
    assert_eq!(
        at(Some(1), 1_600_000_000, 250_000_000, 0).as_deref(),
        Some("2020-09-13T12:26:41.250+00:00")
    );
    assert_eq!(at(Some(0), 0, 0, 0), None);
    assert_eq!(at(Some(-1), 0, 0, 0), None);
    assert_eq!(at(None, 0, 0, 0), None);
    assert!(at(Some(LAST_SECOND), 0, 999_999_999, 86_399).is_some());
    assert!(at(Some(LAST_SECOND), 0, 0, -86_399).is_some());
    assert_eq!(at(Some(LAST_SECOND), 1, 0, 0), None);
    assert_eq!(at(Some(i64::MAX), 1, 0, 0), None);
}

#[test]
fn json_has_every_field() {
    let mut v = value();
    v.encoding = Some(Encoding::Zstd);
    v.stream_offset = Some(7);
    let j = json_fields(&v, Some("soon".to_string()));
    assert_eq!((j.key.as_str(), j.redis_type.as_str(), j.value.as_str()), ("k", "string", "body"));
    assert_eq!((j.ttl, j.size_bytes, j.elements), (Some(-1), Some(1500), None));
    assert_eq!(j.expires_at.as_deref(), Some("soon"));
    assert_eq!(j.encoding.as_deref(), Some("zstd"));
    assert_eq!(j.embedded_offset, Some(7));
    v.stream_offset = Some(0);
    assert_eq!(json_fields(&v, None).embedded_offset, None);
}

#[test]
fn output_depends_on_flags_and_terminal() {
    let v = value();
    let header = |o: Outcome| match o {
        Outcome::Text { header, text } => {
            assert_eq!(text, "body");
            header
        }
        other => panic!("{other:?}"),
    };
    assert!(header(outcome(&args(false, false, false, false), &v, true)));
    assert!(!header(outcome(&args(false, false, false, false), &v, false)));
    assert!(!header(outcome(&args(false, true, false, false), &v, true)));
    assert!(header(outcome(&args(false, false, true, false), &v, false)));
    assert!(matches!(outcome(&args(true, false, false, true), &v, true), Outcome::Json));
    match outcome(&args(true, true, false, false), &v, true) {
        Outcome::NoHex { header, message } => {
            assert!(!header);
            assert_eq!(message, "(no hex view for type string)");
        }
        other => panic!("{other:?}"),
    }
    let mut h = value();
    h.hex = Some("00".to_string());
    match outcome(&args(true, false, false, false), &h, true) {
        Outcome::Hex { header, text } => assert!(header && text == "00"),
        other => panic!("{other:?}"),
    }
    h.take_error("bad".to_string());
    match outcome(&args(false, false, false, true), &h, true) {
        Outcome::Fail(e) => assert_eq!(e, "bad"),
        other => panic!("{other:?}"),
    }
}
