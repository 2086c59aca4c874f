use kafka_proxy::text::{decimal_string, group_id_for, prefixed};

#[test]
fn decimal_string_writes_plain_decimal() {
    assert_eq!(decimal_string(0), "0");
    assert_eq!(decimal_string(7), "7");
    assert_eq!(decimal_string(10), "10");
    assert_eq!(decimal_string(42), "42");
    assert_eq!(decimal_string(1_000_000), "1000000");
    assert_eq!(decimal_string(u64::MAX), u64::MAX.to_string());
}

#[test]
fn decimal_string_matches_display() {
    for n in [1u64, 9, 99, 100, 12345, 4_294_967_296, 18_446_744_073_709_551_614] {
        assert_eq!(decimal_string(n), format!("{}", n));
    }
}

#[test]
fn group_id_for_joins_topic_and_serial() {
    assert_eq!(group_id_for("orders", 1), "orders-group-1");
    assert_eq!(group_id_for("orders", 12), "orders-group-12");
    assert_eq!(group_id_for("", 3), "-group-3");
    assert_eq!(group_id_for("a-group-1", 1), "a-group-1-group-1");
}

#[test]
fn group_ids_differ_across_topics_and_serials() {
    // the serial number is read after the last dash, so these never collide
    assert_ne!(group_id_for("a", 11), group_id_for("a-group-1", 1));
    assert_ne!(group_id_for("a", 1), group_id_for("a", 2));
    assert_ne!(group_id_for("a1", 1), group_id_for("a", 11));
}

#[test]
fn prefixed_puts_prefix_first() {
    assert_eq!(prefixed("Failed to subscribe: ", "boom"), "Failed to subscribe: boom");
    assert_eq!(prefixed("", "x"), "x");
    assert_eq!(prefixed("p", ""), "p");
}
