use queuepeek::config::Profile;
use queuepeek::kafka::{
    format_duration_ms, group_partitions, is_security_setting, peek_start_offset, record_key,
    reset_summary, KafkaBackend,
};
use queuepeek::model::OffsetResetStrategy;

fn profile(user: &str, tls: Option<bool>) -> Profile {
    Profile {
        profile_type: "kafka".to_string(),
        host: "broker".to_string(),
        port: 9092,
        username: user.to_string(),
        password: "pw".to_string(),
        tls,
        ..Default::default()
    }
}

#[test]
fn client_settings_follow_profile() {
    let b = KafkaBackend::new(&profile("", None)).unwrap();
    assert_eq!(b.broker(), "broker:9092");
    assert_eq!(b.security_protocol(), "PLAINTEXT");
    let s = b.client_settings();
    assert_eq!(s.len(), 3);
    assert_eq!(s[0], ("bootstrap.servers".to_string(), "broker:9092".to_string()));

    let b = KafkaBackend::new(&profile("alice", Some(true))).unwrap();
    assert_eq!(b.security_protocol(), "SASL_SSL");
    let s = b.client_settings();
    assert_eq!(s[3], ("security.protocol".to_string(), "SASL_SSL".to_string()));
    assert_eq!(s[5], ("sasl.username".to_string(), "alice".to_string()));

    let mut p = profile("", Some(true));
    p.tls_ca = Some("/ca.pem".to_string());
    let b = KafkaBackend::new(&p).unwrap();
    assert_eq!(b.security_protocol(), "SSL");
    let s = b.client_settings();
    assert_eq!(s.len(), 5);
    assert_eq!(s[4], ("ssl.ca.location".to_string(), "/ca.pem".to_string()));
}

#[test]
fn connection_permissions_describe_login() {
    let b = KafkaBackend::new(&profile("", None)).unwrap();
    let p = b.connection_permissions();
    assert_eq!(p.len(), 1);
    assert_eq!(p[0].user_or_principal, "anonymous");
    let b = KafkaBackend::new(&profile("bob", None)).unwrap();
    let p = b.connection_permissions();
    assert_eq!(p.len(), 2);
    assert_eq!(p[0].permission, "SASL_PLAINTEXT");
    assert_eq!(p[1].resource_name, "SASL/PLAIN");
}

#[test]
fn security_settings() {
    assert!(is_security_setting("authorizer.class.name"));
    assert!(is_security_setting("super.users"));
    assert!(!is_security_setting("log.retention.ms"));
}

#[test]
fn peek_starts_near_the_end() {
    assert_eq!(peek_start_offset(10, 2, 0, 100), 95);
    assert_eq!(peek_start_offset(10, 2, 97, 100), 97);
    assert_eq!(peek_start_offset(1, 4, 0, 100), 99);
}

#[test]
fn record_keys() {
    assert_eq!(record_key("orders"), Some("orders".to_string()));
    assert_eq!(record_key(""), None);
    assert_eq!(record_key("partition-3"), None);
}

#[test]
fn consumer_group_rows() {
    let committed = vec![
        ("t".to_string(), 2, 5i64),
        ("other".to_string(), 0, 1),
        ("t".to_string(), 0, 10),
        ("t".to_string(), 1, -1),
    ];
    let hws = vec![(0, 12i64), (2, 4)];
    let (rows, total) = group_partitions(&committed, "t", &hws).unwrap();
    assert_eq!(rows.len(), 2);
    assert_eq!(rows[0].partition, 0);
    assert_eq!(rows[0].lag, 2);
    assert_eq!(rows[1].partition, 2);
    assert_eq!(rows[1].lag, 0);
    assert_eq!(total, 2);
    assert!(group_partitions(&committed, "none", &hws).is_none());
}

#[test]
fn durations() {
    assert_eq!(format_duration_ms("604800000"), "7d");
    assert_eq!(format_duration_ms("7200000"), "2h");
    assert_eq!(format_duration_ms("90000"), "1m");
    assert_eq!(format_duration_ms("1500"), "1s");
    assert_eq!(format_duration_ms("-1"), "infinite");
    assert_eq!(format_duration_ms("abc"), "abc");
}

#[test]
fn reset_messages() {
    assert_eq!(
        reset_summary("g", "t", OffsetResetStrategy::Earliest),
        "Reset offsets for group 'g' on 't' to earliest"
    );
    assert_eq!(
        reset_summary("g", "t", OffsetResetStrategy::ToOffset(-5)),
        "Reset offsets for group 'g' on 't' to offset -5"
    );
    assert_eq!(
        reset_summary("g", "t", OffsetResetStrategy::ToTimestamp(1700000000000)),
        "Reset offsets for group 'g' on 't' to timestamp 1700000000000"
    );
}
