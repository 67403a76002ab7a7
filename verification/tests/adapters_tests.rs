use magicrune::adapters::{millis_shown, millis_u64, secs_shown, StdTimeAdapter};
use magicrune::ports::{EnvError, IoError, TimePort};

#[test]
fn test_std_time_adapter_now_millis() {
    let adapter = StdTimeAdapter;
    let millis1 = adapter.now_millis();
    let mut millis2 = adapter.now_millis();
    while millis2 < millis1 + 10 {
        millis2 = adapter.now_millis();
    }

    assert!(millis2 > millis1);
    assert!(millis1 > 0);
}

#[test]
fn test_std_time_adapter_now_secs() {
    let adapter = StdTimeAdapter;
    let secs = adapter.now_secs();

    // Should be a reasonable timestamp (after year 2020)
    assert!(secs > 1577836800); // Jan 1, 2020
}

#[test]
fn now_millis_agrees_with_now_secs() {
    let adapter = StdTimeAdapter;
    let secs = adapter.now_secs();
    let millis = adapter.now_millis();
    assert!(millis / 1000 >= secs);
    assert!(millis / 1000 <= secs + 5);
}

#[test]
fn millis_are_clamped_to_64_bits() {
    assert_eq!(millis_u64(0), 0);
    assert_eq!(millis_u64(1234), 1234);
    assert_eq!(millis_u64(u64::MAX as u128), u64::MAX);
    assert_eq!(millis_u64(u64::MAX as u128 + 1), u64::MAX);
}

#[test]
fn port_errors_in_words() {
    assert_eq!(
        EnvError::NotFound("HOME".to_string()).message(),
        "Environment variable not found: HOME"
    );
    assert_eq!(
        EnvError::InvalidValue("N".to_string(), "not a number".to_string()).message(),
        "Invalid value for environment variable N: not a number"
    );
    assert_eq!(IoError::NotFound("/x".to_string()).message(), "File not found: /x");
    assert_eq!(
        IoError::PermissionDenied("/x".to_string()).message(),
        "Permission denied: /x"
    );
    assert_eq!(
        IoError::OperationFailed("disk".to_string()).message(),
        "IO operation failed: disk"
    );
}

#[test]
fn what_the_port_shows_for_a_reading_of_the_clock() {
    assert_eq!(millis_shown(Some(1_577_836_800_000)), 1_577_836_800_000);
    assert_eq!(millis_shown(Some(u64::MAX as u128 + 7)), u64::MAX);
    assert_eq!(millis_shown(Some(0)), 0);
    assert_eq!(millis_shown(None), 0);
    assert_eq!(secs_shown(Some(1_577_836_800)), 1_577_836_800);
    assert_eq!(secs_shown(Some(u64::MAX)), u64::MAX);
    assert_eq!(secs_shown(None), 0);
}
