use queuepeek::queue_detail::{queue_detail, DetailSection, DetailValue};

fn text(v: &DetailValue) -> &str {
    match v {
        DetailValue::Text(t) => t.as_str(),
        _ => panic!("expected text, got {:?}", v),
    }
}

fn titles(s: &[DetailSection]) -> Vec<&str> {
    s.iter().map(|x| x.title.as_str()).collect()
}

const QUEUE: &str = r#"{
  "type": "classic",
  "state": "running",
  "node": "rabbit@host",
  "vhost": "/",
  "durable": true,
  "auto_delete": false,
  "exclusive": false,
  "messages": 1500,
  "messages_ready": 1200,
  "messages_unacknowledged": 300,
  "consumers": 2,
  "consumer_utilisation": 0.5,
  "consumer_details": [
    {
      "consumer_tag": "amq.ctag-1",
      "channel_details": {
        "peer_host": "10.0.0.1",
        "peer_port": 5672,
        "connection_name": "",
        "name": "10.0.0.1:5672 (1)"
      },
      "prefetch_count": 10,
      "ack_required": true
    },
    {}
  ],
  "message_stats": {
    "publish_details": {"rate": 2.5},
    "deliver_details": {"rate": 0},
    "publish": 42
  },
  "memory": 2048,
  "policy": "",
  "arguments": {"x-queue-type": "classic", "x-max-length": 100}
}"#;

#[test]
fn sections_follow_the_answer() {
    let bindings = r#"[
      {"source": "", "routing_key": "orders"},
      {"source": "amq.topic", "routing_key": "orders.#"},
      {"source": "events", "routing_key": ""}
    ]"#;
    let s = queue_detail(QUEUE, Some(bindings)).unwrap();
    assert_eq!(
        titles(&s),
        vec!["General", "Messages", "Consumers", "Consumer #1", "Rates", "Memory", "Configuration", "Bindings"]
    );
    let general = &s[0].entries;
    let keys: Vec<&str> = general.iter().map(|e| e.key.as_str()).collect();
    assert_eq!(keys, vec!["Type", "State", "Node", "Vhost", "Durable", "Auto-delete", "Exclusive"]);
    assert_eq!(text(&general[4].value), "yes");
    assert_eq!(text(&general[5].value), "no");

    assert!(matches!(s[1].entries[0].value, DetailValue::Count(1500)));
    assert!(matches!(s[1].entries[2].value, DetailValue::Count(300)));
    match &s[2].entries[1].value {
        DetailValue::Percent(t) => assert_eq!(t, "0.5"),
        v => panic!("expected a percentage, got {:?}", v),
    }

    let consumer = &s[3].entries;
    let keys: Vec<&str> = consumer.iter().map(|e| e.key.as_str()).collect();
    // an empty connection name is left out
    assert_eq!(keys, vec!["Tag", "Address", "Channel", "Prefetch", "Ack required"]);
    assert_eq!(text(&consumer[1].value), "10.0.0.1:5672");

    let rates = &s[4].entries;
    let keys: Vec<&str> = rates.iter().map(|e| e.key.as_str()).collect();
    assert_eq!(keys, vec!["Publish", "Deliver", "Ack", "Redeliver", "Total published"]);
    match &rates[0].value {
        DetailValue::Rate { number, only_positive } => {
            assert_eq!(number.as_deref(), Some("2.5"));
            assert!(!only_positive);
        }
        v => panic!("expected a rate, got {:?}", v),
    }
    assert!(matches!(&rates[2].value, DetailValue::Rate { number: None, only_positive: false }));
    assert!(matches!(&rates[3].value, DetailValue::Rate { number: None, only_positive: true }));

    assert!(matches!(s[5].entries[0].value, DetailValue::Bytes(2048)));

    // an empty policy is left out; arguments come with their values
    let config = &s[6].entries;
    assert_eq!(config.len(), 2);
    let mut args: Vec<(String, String)> =
        config.iter().map(|e| (e.key.clone(), text(&e.value).to_string())).collect();
    args.sort();
    assert_eq!(
        args,
        vec![
            ("x-max-length".to_string(), "100".to_string()),
            ("x-queue-type".to_string(), "classic".to_string()),
        ]
    );

    // the default exchange's binding is skipped; an empty key reads "(all)"
    let b = &s[7].entries;
    assert_eq!(b.len(), 2);
    assert_eq!(b[0].key, "amq.topic");
    assert_eq!(text(&b[0].value), "orders.#");
    assert_eq!(b[1].key, "events");
    assert_eq!(text(&b[1].value), "(all)");
}

#[test]
fn consumers_are_numbered_among_all_listed() {
    let q = r#"{"consumer_details": [{}, {"consumer_tag": "b"}]}"#;
    let s = queue_detail(q, None).unwrap();
    assert_eq!(titles(&s), vec!["Consumer #2"]);
    let q = r#"{"consumer_details": [{"channel_details": {"peer_host": "h"}}]}"#;
    let s = queue_detail(q, None).unwrap();
    assert_eq!(text(&s[0].entries[0].value), "h:0");
}

#[test]
fn failed_or_odd_answers() {
    assert!(queue_detail("not json", None).is_none());
    let s = queue_detail("{}", Some("not json")).unwrap();
    assert!(s.is_empty());
    let s = queue_detail("{}", Some("{\"source\": \"x\"}")).unwrap();
    assert!(s.is_empty());
    // statistics of any shape give the three rates
    let s = queue_detail("{\"message_stats\": null}", None).unwrap();
    assert_eq!(titles(&s), vec!["Rates"]);
    assert_eq!(s[0].entries.len(), 4);
    let s = queue_detail("{\"policy\": \"ha-all\"}", None).unwrap();
    assert_eq!(text(&s[0].entries[0].value), "ha-all");
}
