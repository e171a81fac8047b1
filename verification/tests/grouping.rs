use shopware_redis_cli_helper::grouping::{
    is_cut_clean, is_hash_segment, normalize_type, parse_key, ParsedKey,
};

fn t(key: &str) -> ParsedKey {
    parse_key(key, 10)
}

#[test]
fn splits_namespace_and_strips_double_hash() {
    let p = t("WpDcVyo5fP:product-detail-route-1195e812ffd3266c2ed02a5d603d26f5-481ce4e8cb0b80a09beac0aaeea37457");
    assert_eq!(p.namespace, "WpDcVyo5fP");
    assert_eq!(p.key_type, "product-detail-route");
}

#[test]
fn strips_single_hash() {
    let p = t("WpDcVyo5fP:faq-group-930338b2525f792b15a15f598e3ade05");
    assert_eq!(p.key_type, "faq-group");
}

#[test]
fn handles_triple_hash() {
    let p = t("WpDcVyo5fP:cached-product-df61c92879d105261d7fc1e860f1acc7-742e3c7d1b07ae59066c16c7d3f35d4d-450e84ef6ea42a6d10b09c1b4c84ec89");
    assert_eq!(p.key_type, "cached-product");
}

#[test]
fn preserves_tag_prefix() {
    // literal control byte form
    let p = t("WpDcVyo5fP:\u{0001}tags\u{0001}product-0f483ff8ad7735e5e2dc0f44728d7bdb");
    assert_eq!(p.namespace, "WpDcVyo5fP");
    assert_eq!(p.key_type, "\\x01tags\\x01product");
}

#[test]
fn preserves_already_escaped_tag_prefix() {
    let p = t("WpDcVyo5fP:\\x01tags\\x01product-0f483ff8ad7735e5e2dc0f44728d7bdb");
    assert_eq!(p.key_type, "\\x01tags\\x01product");
}

#[test]
fn review_route_single_hash() {
    let p = t("WpDcVyo5fP:product-review-route-edc0e4a2cce33d9d8122d93bbe90a6f0-58f97500f374ea9a13ace9f52c7491b3");
    assert_eq!(p.key_type, "product-review-route");
}

#[test]
fn no_colon_falls_back_to_prefix() {
    let p = t("plainkeywithoutcolon12345");
    assert_eq!(p.namespace, "plainkeywi");
    assert_eq!(p.key_type, "(no-type)");
}

#[test]
fn short_hex_word_is_not_treated_as_hash() {
    // "cafe" is hex but too short — must be kept as a real type token.
    let p = t("WpDcVyo5fP:cafe");
    assert_eq!(p.key_type, "cafe");
}

#[test]
fn body_that_is_only_a_hash() {
    let p = t("WpDcVyo5fP:0f483ff8ad7735e5e2dc0f44728d7bdb");
    assert_eq!(p.key_type, "(hash)");
}

#[test]
fn hash_needs_sixteen_hex_digits() {
    assert!(is_hash_segment("0123456789abcdef"));
    assert!(is_hash_segment("0123456789ABCDEF"));
    assert!(!is_hash_segment("0123456789abcde"));
    assert!(!is_hash_segment("0123456789abcdeg"));
    assert!(!is_hash_segment(""));
}

#[test]
fn further_hashes_do_not_change_the_type() {
    let h = "0f483ff8ad7735e5e2dc0f44728d7bdb";
    for body in ["product", "cached-product", "\\x01tags\\x01product", h, "\\x01tags\\x01"] {
        let longer = format!("{body}-{h}");
        assert_eq!(normalize_type(&longer), normalize_type(body));
    }
    assert_eq!(normalize_type(&format!("\\x01tags\\x01{h}")), "\\x01tags\\x01(hash)");
}

#[test]
fn normalizing_twice_changes_nothing() {
    for body in ["", "a-b", "0f483ff8ad7735e5e2dc0f44728d7bdb", "\\x01tags\\x01x-0f483ff8ad7735e5"] {
        let once = normalize_type(body);
        assert_eq!(normalize_type(&once), once);
    }
    // A body of nothing but hashes is never left without a name.
    assert_eq!(normalize_type("-0f483ff8ad7735e5"), "(hash)");
    assert_eq!(normalize_type("-0f483ff8ad7735e5-0f483ff8ad7735e5"), "(hash)");
    assert_eq!(normalize_type("\\x01tags\\x01-0f483ff8ad7735e5"), "\\x01tags\\x01");
}

#[test]
fn a_type_begins_the_bodies_it_stands_for() {
    let body = "cached-product-df61c92879d105261d7fc1e860f1acc7";
    assert!(body.starts_with(&normalize_type(body)));
}

#[test]
fn cutting_inside_a_character_is_noticed() {
    assert!(is_cut_clean("plainkeywithoutcolon", 10));
    assert!(is_cut_clean("ääää:x", 1));
    assert!(is_cut_clean("ääää", 2));
    assert!(!is_cut_clean("ääää", 1));
    assert!(is_cut_clean("ää", 100));
    assert_eq!(parse_key("ääää", 4).namespace, "ää");
    assert_eq!(parse_key("ab", 10).namespace, "ab");
    // The marker counts with its readable form.
    assert_eq!(parse_key("\u{1}abc", 4).namespace, "\\x01");
}

#[test]
fn only_the_first_colon_separates() {
    let p = t("ns:a:b");
    assert_eq!(p.namespace, "ns");
    assert_eq!(p.key_type, "a:b");
    let q = t(":x");
    assert_eq!(q.namespace, "");
    assert_eq!(q.key_type, "x");
    assert_eq!(t("ns:").key_type, "(no-type)");
}
