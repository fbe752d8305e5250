use queuepeek::config::{Config, Profile};

#[test]
fn profile_base_url_http() {
    let p = Profile {
        host: "localhost".to_string(),
        port: 15672,
        tls: Some(false),
        ..Default::default()
    };
    assert_eq!(p.base_url(), "http://localhost:15672");
}

#[test]
fn profile_base_url_https() {
    let p = Profile {
        host: "rabbit.example.com".to_string(),
        port: 443,
        tls: Some(true),
        ..Default::default()
    };
    assert_eq!(p.base_url(), "https://rabbit.example.com:443");
}

#[test]
fn config_profile_crud() {
    let mut config = Config::default();
    assert!(config.profile_names().is_empty());

    let profile = Profile {
        profile_type: "rabbitmq".to_string(),
        host: "localhost".to_string(),
        port: 15672,
        username: "guest".to_string(),
        password: "guest".to_string(),
        ..Default::default()
    };

    config.add_profile("local".to_string(), profile);
    assert_eq!(config.profile_names(), vec!["local"]);

    config.delete_profile("local");
    assert!(config.profile_names().is_empty());
}

#[test]
fn config_delete_clears_default() {
    let mut config = Config::default();
    config.default_profile = Some("test".to_string());
    config.add_profile("test".to_string(), Profile::default());

    config.delete_profile("test");
    assert_eq!(config.default_profile, None);
}

#[test]
fn config_profile_names_sorted() {
    let mut config = Config::default();
    config.add_profile("zebra".to_string(), Profile::default());
    config.add_profile("alpha".to_string(), Profile::default());
    config.add_profile("middle".to_string(), Profile::default());

    assert_eq!(config.profile_names(), vec!["alpha", "middle", "zebra"]);
}

#[test]
fn profile_base_url_without_tls_setting_is_http() {
    let p = Profile {
        host: "mq".to_string(),
        port: 8080,
        ..Default::default()
    };
    assert_eq!(p.base_url(), "http://mq:8080");
}

#[test]
fn config_add_replaces_profile_of_same_name() {
    let mut config = Config::default();
    config.add_profile("a".to_string(), Profile { port: 1, ..Default::default() });
    config.add_profile("a".to_string(), Profile { port: 2, ..Default::default() });
    assert_eq!(config.profile_names(), vec!["a"]);
    assert_eq!(config.profiles.get("a").unwrap().port, 2);
    assert_eq!(config.profiles.len(), 1);
}

#[test]
fn config_delete_keeps_other_default() {
    let mut config = Config::default();
    config.default_profile = Some("keep".to_string());
    config.add_profile("keep".to_string(), Profile::default());
    config.add_profile("drop".to_string(), Profile::default());
    config.delete_profile("drop");
    assert_eq!(config.default_profile, Some("keep".to_string()));
    assert_eq!(config.profile_names(), vec!["keep"]);
    assert!(config.profiles.get("drop").is_none());
}

#[test]
fn config_delete_missing_profile_changes_nothing() {
    let mut config = Config::default();
    config.add_profile("one".to_string(), Profile::default());
    config.delete_profile("two");
    assert_eq!(config.profile_names(), vec!["one"]);
}
