use queuepeek::config::Profile;
use queuepeek::mqtt::{
    broker_name, client_id, BrokerProbe, MqttBackend, MqttEvent, MqttStep, PeekSession,
    PublishSession, QosLevel, Received, TopicDiscovery,
};

fn profile(topics: Option<Vec<&str>>) -> Profile {
    Profile {
        profile_type: "mqtt".to_string(),
        host: "mq".to_string(),
        port: 1883,
        username: String::new(),
        topics: topics.map(|t| t.into_iter().map(|s| s.to_string()).collect()),
        ..Default::default()
    }
}

fn publish(topic: &str, payload: &str) -> MqttEvent {
    MqttEvent::Publish(Received {
        topic: topic.to_string(),
        payload: payload.to_string(),
        qos: QosLevel::AtLeastOnce,
        retain: true,
        pkid: 7,
        dup: false,
    })
}

#[test]
fn backend_settings() {
    let b = MqttBackend::new(&profile(None)).unwrap();
    assert_eq!(b.host(), "mq");
    assert_eq!(b.port(), 1883);
    assert!(!b.tls());
    assert!(b.credentials().is_none());
    assert_eq!(b.subscription_topics(), vec!["#".to_string()]);
    let b = MqttBackend::new(&profile(Some(vec!["a/#", "b"]))).unwrap();
    assert_eq!(b.subscription_topics(), vec!["a/#".to_string(), "b".to_string()]);
    let mut p = profile(None);
    p.username = "u".to_string();
    p.password = "p".to_string();
    let b = MqttBackend::new(&p).unwrap();
    assert_eq!(b.credentials(), Some(("u", "p")));
}

#[test]
fn broker_names() {
    assert_eq!(broker_name(""), "MQTT Broker");
    assert_eq!(broker_name("mosquitto 2.0"), "MQTT (mosquitto 2.0)");
    let b = MqttBackend::new(&profile(None)).unwrap();
    let info = b.broker_info("2.0");
    assert_eq!(info._name, "MQTT (2.0)");
    assert_eq!(info._cluster, "mq:1883");
    let id = client_id("info");
    assert!(id.starts_with("queuepeek-info-"));
    assert!(id.len() > "queuepeek-info-".len());
}

#[test]
fn probe_reads_version() {
    let mut p = BrokerProbe::new();
    assert_eq!(p.step(MqttEvent::Failure("refused".to_string())), MqttStep::Fail("MQTT connection failed: refused".to_string()));
    assert_eq!(p.step(MqttEvent::ConnAck), MqttStep::Subscribe(vec!["$SYS/broker/version".to_string()]));
    assert_eq!(p.step(publish("other", "x")), MqttStep::Continue);
    assert_eq!(p.step(publish("$SYS/broker/version", "2.0.18")), MqttStep::Stop);
    assert_eq!(p.version, "2.0.18");
    assert_eq!(p.step(MqttEvent::Failure("gone".to_string())), MqttStep::Stop);
}

#[test]
fn discovery_counts_topics_in_order() {
    let b = MqttBackend::new(&profile(None)).unwrap();
    let mut d = TopicDiscovery::new(&b);
    assert_eq!(d.step(MqttEvent::ConnAck), MqttStep::Subscribe(vec!["#".to_string()]));
    d.step(publish("zeta", "1"));
    d.step(publish("alpha", "1"));
    d.step(publish("$SYS/uptime", "1"));
    d.step(publish("zeta", "2"));
    assert_eq!(d.tally.count("zeta"), 2);
    assert_eq!(d.tally.count("$SYS/uptime"), 0);
    let topics = d.finish(&b);
    let names: Vec<&str> = topics.iter().map(|t| t.name.as_str()).collect();
    assert_eq!(names, vec!["alpha", "zeta"]);
    assert_eq!(topics[1].messages, 2);
    assert_eq!(topics[0].state, "active");
}

#[test]
fn discovery_falls_back_to_configured_topics() {
    let b = MqttBackend::new(&profile(Some(vec!["b", "a", "b"]))).unwrap();
    let d = TopicDiscovery::new(&b);
    let topics = d.finish(&b);
    let names: Vec<&str> = topics.iter().map(|t| t.name.as_str()).collect();
    assert_eq!(names, vec!["a", "b", "b"]);
    assert!(topics.iter().all(|t| t.messages == 0 && t.state == "subscribed"));
    let b = MqttBackend::new(&profile(None)).unwrap();
    assert!(TopicDiscovery::new(&b).finish(&b).is_empty());
}

#[test]
fn peek_collects_up_to_count() {
    let mut s = PeekSession::new("sensors/#", 2);
    assert_eq!(s.step(MqttEvent::ConnAck), MqttStep::Subscribe(vec!["sensors/#".to_string()]));
    assert_eq!(s.step(publish("sensors/a", "21")), MqttStep::Continue);
    assert_eq!(s.step(publish("sensors/b", "22")), MqttStep::Continue);
    assert_eq!(s.step(publish("sensors/c", "23")), MqttStep::Stop);
    assert_eq!(s.messages.len(), 2);
    let m = &s.messages[1];
    assert_eq!(m.index, 2);
    assert_eq!(m.routing_key, "sensors/b");
    assert_eq!(m.body, "22");
    assert_eq!(
        m.headers,
        vec![
            ("topic".to_string(), "sensors/b".to_string()),
            ("qos".to_string(), "AtLeastOnce".to_string()),
            ("retain".to_string(), "true".to_string()),
            ("pkid".to_string(), "7".to_string()),
        ]
    );
}

#[test]
fn publish_outcomes() {
    let mut s = PublishSession::new();
    assert_eq!(s.finish(), Err("Failed to connect to MQTT broker".to_string()));
    assert_eq!(s.step(MqttEvent::ConnAck), MqttStep::PublishNow);
    assert_eq!(s.finish(), Ok(()));
    assert_eq!(s.step(MqttEvent::PubAck), MqttStep::Stop);
    assert!(s.published);
    assert_eq!(s.finish(), Ok(()));
}
