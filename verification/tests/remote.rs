use task_scheduler::freshness::{newer_remote, remote_is_newer};

const SECOND: i128 = 1_000_000_000;

#[test]
fn missing_local_time_makes_remote_newer() {
    assert!(remote_is_newer(None, Some(0)));
    assert!(remote_is_newer(None, None));
    assert!(newer_remote(None, Some("Sun, 06 Nov 1994 08:49:37 GMT")));
    assert!(newer_remote(None, None));
}

#[test]
fn missing_or_bad_header_makes_remote_newer() {
    assert!(remote_is_newer(Some(5), None));
    assert!(newer_remote(Some(i128::MAX), None));
    assert!(newer_remote(Some(i128::MAX), Some("")));
    assert!(newer_remote(Some(i128::MAX), Some("yesterday")));
    assert!(newer_remote(Some(i128::MAX), Some("Sun Nov 10 08:00:00 1000")));
}

#[test]
fn times_are_compared_strictly() {
    assert!(remote_is_newer(Some(9 * SECOND + 999_999_999), Some(10)));
    assert!(!remote_is_newer(Some(10 * SECOND), Some(10)));
    assert!(!remote_is_newer(Some(10 * SECOND + 1), Some(10)));
    assert!(remote_is_newer(Some(-1), Some(0)));
    assert!(!remote_is_newer(Some(0), Some(0)));
    assert!(remote_is_newer(Some(i128::MIN), Some(0)));
    assert!(!remote_is_newer(Some(i128::MAX), Some(u64::MAX)));
    assert!(remote_is_newer(Some(0), Some(u64::MAX)));
}

#[test]
fn header_date_is_read_in_all_three_forms() {
    let at = 784_111_777 * SECOND;
    for text in [
        "Sun, 06 Nov 1994 08:49:37 GMT",
        "Sunday, 06-Nov-94 08:49:37 GMT",
        "Sun Nov  6 08:49:37 1994",
    ] {
        assert!(newer_remote(Some(at - 1), Some(text)));
        assert!(!newer_remote(Some(at), Some(text)));
        assert!(!newer_remote(Some(at + 1), Some(text)));
    }
}

#[test]
fn epoch_header_is_newer_only_than_earlier_files() {
    let text = "Thu, 01 Jan 1970 00:00:00 GMT";
    assert!(newer_remote(Some(-1), Some(text)));
    assert!(!newer_remote(Some(0), Some(text)));
}
