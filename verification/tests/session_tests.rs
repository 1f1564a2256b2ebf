use audio_switch::session::{classify_acquisition, status_is_success, Acquisition, CHANGED_MODE};

#[test]
fn changed_mode_is_the_platform_value() {
    assert_eq!(CHANGED_MODE, 0x8001_0106_u32 as i32);
}

#[test]
fn success_is_any_status_that_is_not_negative() {
    assert!(status_is_success(0));
    assert!(status_is_success(1));
    assert!(status_is_success(i32::MAX));
    assert!(!status_is_success(-1));
    assert!(!status_is_success(i32::MIN));
    assert!(!status_is_success(0x8000_4005_u32 as i32));
}

#[test]
fn fresh_acquisition_is_owned() {
    assert_eq!(classify_acquisition(0), Acquisition::Owned);
}

#[test]
fn repeated_acquisition_in_the_same_mode_is_owned() {
    // the platform answers 1 when the thread already has this mode; the
    // acquisition still counts and has to be released
    assert_eq!(classify_acquisition(1), Acquisition::Owned);
}

#[test]
fn changed_mode_is_borrowed() {
    assert_eq!(classify_acquisition(CHANGED_MODE), Acquisition::Borrowed);
}

#[test]
fn other_failures_are_refused() {
    assert_eq!(classify_acquisition(-1), Acquisition::Refused);
    assert_eq!(classify_acquisition(0x8000_4005_u32 as i32), Acquisition::Refused);
    assert_eq!(classify_acquisition(0x8007_000E_u32 as i32), Acquisition::Refused);
    assert_eq!(classify_acquisition(CHANGED_MODE + 1), Acquisition::Refused);
    assert_eq!(classify_acquisition(CHANGED_MODE - 1), Acquisition::Refused);
}

#[test]
fn only_an_owned_acquisition_is_released() {
    assert!(Acquisition::Owned.must_release());
    assert!(!Acquisition::Borrowed.must_release());
    assert!(!Acquisition::Refused.must_release());
}

#[test]
fn owned_and_borrowed_acquisitions_are_usable() {
    assert!(Acquisition::Owned.usable());
    assert!(Acquisition::Borrowed.usable());
    assert!(!Acquisition::Refused.usable());
}
