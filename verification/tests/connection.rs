use shopware_redis_cli_helper::connection::{bad_url, limits, refused, timed_out};

#[test]
fn limits_are_bounded() {
    assert_eq!((limits(5).each, limits(5).overall), (5, 10));
    assert_eq!((limits(0).each, limits(0).overall), (1, 2));
    assert_eq!(limits(u64::MAX).overall, u64::MAX);
}

#[test]
fn messages() {
    assert_eq!(refused("x"), "could not connect to redis: x");
    assert_eq!(
        timed_out(&limits(5)),
        "connection timed out after 10s — check the host/port in --url"
    );
    assert_eq!(bad_url("u", "e"), "invalid redis url u: e");
}
