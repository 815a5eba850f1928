use dojo::{get_timestamp, readable_datetime};

#[test]
fn helpers_tests_test_get_timestamp() {
    assert!(get_timestamp() > 0)
}

#[test]
fn helpers_tests_test_readable_datetime() {
    let timestamp = get_timestamp();
    assert!(readable_datetime(timestamp).is_ok())
}
