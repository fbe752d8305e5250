use queuepeek::config::Profile;
use queuepeek::forms::{ProfileForm, PublishForm};

#[test]
fn publish_form_for_queue() {
    let f = PublishForm::new_for_queue("orders");
    assert_eq!(f.routing_key, "orders");
    assert_eq!(f.content_type, "application/json");
    assert_eq!(f.body, "");
    assert_eq!(f.focused_field, 2);
    assert_eq!(PublishForm::field_count(), 3);
    assert_eq!(PublishForm::field_label(0), "Routing Key");
    assert_eq!(PublishForm::field_label(2), "Body");
    assert_eq!(PublishForm::field_label(9), "");
}

#[test]
fn publish_form_typing_and_erasing() {
    let mut f = PublishForm::new_for_queue("q");
    f.push_char('a');
    f.newline();
    f.push_char('b');
    assert_eq!(f.body, "a\nb");
    f.pop_char();
    assert_eq!(f.body, "a\n");
    f.focused_field = 0;
    f.push_char('x');
    f.newline();
    assert_eq!(f.routing_key, "qx");
    f.pop_char();
    f.pop_char();
    f.pop_char();
    assert_eq!(f.routing_key, "");
}

#[test]
fn profile_form_labels_and_values() {
    assert_eq!(ProfileForm::field_count(), 8);
    assert_eq!(ProfileForm::field_label(3), "Port");
    assert_eq!(ProfileForm::field_label(7), "TLS");
    let mut f = ProfileForm::default();
    f.set_field(2, "host".to_string());
    f.set_field(7, "yes".to_string());
    assert_eq!(f.field_value(2), "host");
    assert_eq!(f.field_value(7), "yes");
    f.set_field(7, "no".to_string());
    assert_eq!(f.field_value(7), "no");
    assert_eq!(f.field_value(42), "");
}

#[test]
fn default_ports() {
    assert_eq!(ProfileForm::default_port("kafka"), "9092");
    assert_eq!(ProfileForm::default_port("mqtt"), "1883");
    assert_eq!(ProfileForm::default_port("rabbitmq"), "15672");
    assert_eq!(ProfileForm::default_port("other"), "15672");
}

#[test]
fn cloud_hosts_switch_to_tls() {
    assert!(ProfileForm::is_cloud_host("x.CloudAMQP.com"));
    assert!(!ProfileForm::is_cloud_host("localhost"));
    let mut f = ProfileForm::default();
    f.clear();
    assert_eq!(f.profile_type, "rabbitmq");
    assert_eq!(f.port, "15672");
    f.host = "b-1.mq.us-east-1.amazonaws.com".to_string();
    f.auto_detect_cloud();
    assert_eq!(f.port, "443");
    assert!(f.tls);
    f.host = "localhost".to_string();
    f.auto_detect_cloud();
    assert_eq!(f.port, "15672");
    assert!(!f.tls);
}

#[test]
fn backend_type_change_moves_default_port() {
    let mut f = ProfileForm::default();
    f.clear();
    f.set_backend_type("kafka");
    assert_eq!(f.profile_type, "kafka");
    assert_eq!(f.port, "9092");
    f.port = "1234".to_string();
    f.set_backend_type("mqtt");
    assert_eq!(f.port, "1234");
}

#[test]
fn profile_form_typing() {
    let mut f = ProfileForm::default();
    f.focused_field = 0;
    f.push_char('x');
    assert_eq!(f.profile_type, "");
    f.focused_field = 7;
    f.push_char('x');
    assert!(f.tls);
    f.pop_char();
    assert!(f.tls);
    f.focused_field = 1;
    f.push_char('n');
    f.push_char('m');
    f.pop_char();
    assert_eq!(f.name, "n");
}

#[test]
fn profile_round_trip() {
    let p = Profile {
        profile_type: "kafka".to_string(),
        host: "k".to_string(),
        port: 9093,
        username: "u".to_string(),
        password: "p".to_string(),
        vhost: Some("v".to_string()),
        tls: Some(true),
        ..Default::default()
    };
    let f = ProfileForm::from_profile("prod", &p);
    assert_eq!(f.name, "prod");
    assert_eq!(f.port, "9093");
    let back = f.to_profile().unwrap();
    assert_eq!(back.profile_type, "kafka");
    assert_eq!(back.host, "k");
    assert_eq!(back.port, 9093);
    assert_eq!(back.username, "u");
    assert_eq!(back.password, "p");
    assert_eq!(back.vhost, Some("v".to_string()));
    assert_eq!(back.tls, Some(true));
}

#[test]
fn to_profile_errors_and_defaults() {
    let mut f = ProfileForm::default();
    assert_eq!(f.to_profile().err(), Some("Name is required".to_string()));
    f.name = "n".to_string();
    f.port = "70000".to_string();
    assert_eq!(f.to_profile().err(), Some("Invalid port number".to_string()));
    f.port = "5672".to_string();
    let p = f.to_profile().unwrap();
    assert_eq!(p.host, "localhost");
    assert_eq!(p.username, "guest");
    assert_eq!(p.password, "guest");
    assert_eq!(p.profile_type, "rabbitmq");
    assert_eq!(p.vhost, None);
    assert_eq!(p.tls, Some(false));
}
