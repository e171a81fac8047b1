use shopware_redis_cli_helper::binary64::{
    in_whole_percent, pct, reaches, share_of, with_one_decimal, Binary64,
};

fn expected(part: u64, whole: u64) -> String {
    if whole == 0 {
        "0.0%".to_string()
    } else {
        format!("{:.1}%", part as f64 / whole as f64 * 100.0)
    }
}

fn value(x: Binary64) -> f64 {
    x.mantissa as f64 * 2f64.powi(x.exponent)
}

fn samples() -> Vec<(u64, u64)> {
    let mut v = vec![
        (0, 0),
        (1, 0),
        (0, 7),
        (1, 3),
        (2, 3),
        (1, 2),
        (1, 8),
        (1, 16),
        (1, 1000),
        (1, 2000),
        (5, 10000),
        (15, 10000),
        (7, 7),
        (u64::MAX, u64::MAX),
        (1, u64::MAX),
        (u64::MAX, 1),
        (u64::MAX - 1, u64::MAX),
        (1 << 53, (1 << 53) + 1),
        ((1 << 53) + 1, 1 << 60),
        (9007199254740993, 9007199254740995),
    ];
    let mut x: u64 = 88172645463325252;
    for i in 0..4000u32 {
        x ^= x << 13;
        x ^= x >> 7;
        x ^= x << 17;
        let a = x >> (i % 64);
        x ^= x << 13;
        x ^= x >> 7;
        x ^= x << 17;
        let b = x >> (i % 61);
        v.push((a, b));
    }
    for whole in 1..120u64 {
        for part in 0..=whole {
            v.push((part, whole));
        }
    }
    v
}

#[test]
fn percentages_are_those_of_double_precision() {
    for (part, whole) in samples() {
        assert_eq!(pct(part, whole), expected(part, whole), "{part} of {whole}");
    }
}

#[test]
fn shares_are_those_of_double_precision() {
    for (part, whole) in samples() {
        if whole > 0 {
            assert_eq!(value(share_of(part, whole)), part as f64 / whole as f64);
        }
    }
}

#[test]
fn whole_percentages_round_half_to_even() {
    for (part, whole) in samples() {
        if whole > 0 && part <= whole {
            let x = share_of(part, whole);
            let want = format!("{:.0}", part as f64 / whole as f64 * 100.0);
            assert_eq!(in_whole_percent(x), want, "{part} of {whole}");
        }
    }
    assert_eq!(in_whole_percent(share_of(1, 200)), "0");
    assert_eq!(in_whole_percent(share_of(3, 200)), "2");
}

#[test]
fn exact_texts() {
    assert_eq!(pct(6, 7), "85.7%");
    assert_eq!(pct(1, 7), "14.3%");
    assert_eq!(pct(1, 3), "33.3%");
    assert_eq!(pct(1, 1600), "0.1%");
    assert_eq!(pct(5, 5), "100.0%");
    assert_eq!(pct(0, 5), "0.0%");
    assert_eq!(pct(5, 0), "0.0%");
    assert_eq!(with_one_decimal(Binary64 { mantissa: 1, exponent: -2 }), "0.2");
    assert_eq!(with_one_decimal(Binary64 { mantissa: 3, exponent: -2 }), "0.8");
    assert_eq!(with_one_decimal(Binary64 { mantissa: 5, exponent: 3 }), "40.0");
}

#[test]
fn thresholds_are_those_of_double_precision() {
    let nine_tenths: u64 = 0x1c_cccc_cccc_cccd;
    assert_eq!(nine_tenths as f64 * 2f64.powi(-53), 0.90);
    let three_quarters: u64 = 0x18_0000_0000_0000;
    assert_eq!(three_quarters as f64 * 2f64.powi(-53), 0.75);
    for (part, whole) in samples() {
        if whole > 0 {
            let x = share_of(part, whole);
            let f = part as f64 / whole as f64;
            assert_eq!(reaches(x, nine_tenths), f >= 0.90, "{part} of {whole}");
            assert_eq!(reaches(x, three_quarters), f >= 0.75, "{part} of {whole}");
        }
    }
}
