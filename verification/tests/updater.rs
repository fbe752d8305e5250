use queuepeek::updater::{newer_release, parse_version, version_newer, UpdateChecker, UpdateStatus};

#[test]
fn versions_compare_by_numbers() {
    assert_eq!(parse_version("1.2.3"), vec![1, 2, 3]);
    assert_eq!(parse_version("1.x.3"), vec![1, 3]);
    assert!(version_newer("0.10.0", "0.9.5"));
    assert!(version_newer("1.2.1", "1.2"));
    assert!(!version_newer("1.2.0", "1.2.0"));
    assert!(!version_newer("1.1.9", "1.2.0"));
}

#[test]
fn newer_release_strips_v() {
    assert_eq!(newer_release("v1.4.0", "1.3.9"), Some("1.4.0".to_string()));
    assert_eq!(newer_release("v1.3.9", "1.3.9"), None);
}

#[test]
fn checks_are_hourly_and_one_at_a_time() {
    let mut c = UpdateChecker::new();
    assert!(c.should_check(0));
    assert!(c.start_check());
    assert!(!c.should_check(10));
    assert!(!c.start_check());
    c.poll(None, 20);
    assert!(c.checking);
    c.poll(Some(UpdateStatus::Available("2.0.0".to_string())), 30);
    assert!(!c.checking);
    assert!(c.update_available);
    assert_eq!(c.latest_version, Some("2.0.0".to_string()));
    assert_eq!(c.last_check, Some(30));
    assert!(!c.should_check(3629));
    assert!(c.should_check(3630));
    c.start_check();
    c.poll(Some(UpdateStatus::UpToDate), 4000);
    assert!(!c.update_available);
    c.start_check();
    c.poll(Some(UpdateStatus::Error("offline".to_string())), 9000);
    assert_eq!(c.last_check, Some(9000));
}
