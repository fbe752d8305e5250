use queuepeek::rabbitmq::{
    binding_path, broker_info, default_publish_path, delete_queue_path, exchange_publish_path,
    namespace_listing_path, parse_bindings, parse_exchanges, parse_messages, parse_permissions,
    purge_path, queue_bindings_path, queue_get_path, queue_path, queues_path, Overview,
};

#[test]
fn names_are_percent_encoded() {
    assert_eq!(queues_path("/"), "/api/queues/%2F");
    assert_eq!(queue_path("my vhost", "a.b~c_d-e"), "/api/queues/my%20vhost/a.b~c_d-e");
    assert_eq!(queue_path("/", "\u{fc}"), "/api/queues/%2F/%C3%BC");
}

#[test]
fn api_paths() {
    assert_eq!(queue_get_path("/", "q"), "/api/queues/%2F/q/get");
    assert_eq!(delete_queue_path("/", "q"), "/api/queues/%2F/q?if-unused=false&if-empty=false");
    assert_eq!(purge_path("v", "q"), "/api/queues/v/q/contents");
    assert_eq!(queue_bindings_path("v", "q"), "/api/queues/v/q/bindings");
    assert_eq!(exchange_publish_path("/", "ex"), "/api/exchanges/%2F/ex/publish");
    assert_eq!(default_publish_path("/"), "/api/exchanges/%2F/amq.default/publish");
    assert_eq!(binding_path("/", "ex", "q", None), "/api/bindings/%2F/e/ex/q/q");
    assert_eq!(binding_path("/", "ex", "q", Some("rk~1")), "/api/bindings/%2F/e/ex/q/q/rk~1");
    assert_eq!(namespace_listing_path("permissions", "/"), "/api/permissions/%2F");
}

#[test]
fn broker_from_overview() {
    let b = broker_info(&Overview {
        cluster_name: "rabbit@host".to_string(),
        rabbitmq_version: "3.12.1".to_string(),
    });
    assert_eq!(b._name, "RabbitMQ 3.12.1");
    assert_eq!(b._cluster, "rabbit@host");
}

#[test]
fn messages_from_queue_read() {
    let text = r#"[
        {"redelivered": true, "exchange": "ex", "routing_key": "rk", "payload": "hello",
         "properties": {"content_type": "text/plain", "timestamp": 1700000000,
                        "headers": {"x-retry": 2, "kind": "a"}}},
        {"payload": "second", "properties": {}}
    ]"#;
    let ms = parse_messages(text).unwrap();
    assert_eq!(ms.len(), 2);
    assert_eq!(ms[0].index, 1);
    assert_eq!(ms[0].routing_key, "rk");
    assert_eq!(ms[0].exchange, "ex");
    assert!(ms[0].redelivered);
    assert_eq!(ms[0].timestamp, Some(1700000000));
    assert_eq!(ms[0].content_type, "text/plain");
    assert_eq!(ms[0].body, "hello");
    assert_eq!(
        ms[0].headers,
        vec![("kind".to_string(), "\"a\"".to_string()), ("x-retry".to_string(), "2".to_string())]
    );
    assert_eq!(ms[1].index, 2);
    assert_eq!(ms[1].content_type, "");
    assert_eq!(ms[1].timestamp, None);
    assert!(!ms[1].redelivered);
    assert!(parse_messages("not json").is_none());
}

#[test]
fn exchanges_and_bindings() {
    let ex = parse_exchanges(r#"[{"name": "amq.direct", "type": "direct", "durable": true}, {"name": ""}]"#).unwrap();
    assert_eq!(ex.len(), 2);
    assert_eq!(ex[0].name, "amq.direct");
    assert_eq!(ex[0].exchange_type, "direct");
    assert!(ex[0].durable);
    assert_eq!(ex[1].exchange_type, "");
    assert!(!ex[1].durable);
    let bs = parse_bindings(r#"[
        {"source": "", "destination": "q1", "routing_key": "q1"},
        {"source": "ex", "destination": "q2", "routing_key": "k", "properties_key": "k"}
    ]"#).unwrap();
    assert_eq!(bs.len(), 1);
    assert_eq!(bs[0].source, "ex");
    assert_eq!(bs[0].destination, "q2");
    assert_eq!(bs[0].destination_type, "queue");
    assert_eq!(bs[0].properties_key, "k");
}

#[test]
fn permissions_one_entry_per_right() {
    let ps = parse_permissions(
        r#"[{"user": "guest", "configure": ".*", "write": "", "read": "^amq"}]"#,
        "/",
    )
    .unwrap();
    assert_eq!(ps.len(), 2);
    assert_eq!(ps[0].user_or_principal, "guest");
    assert_eq!(ps[0].permission, "configure");
    assert_eq!(ps[0].resource_name, ".*");
    assert_eq!(ps[0].host, "/");
    assert_eq!(ps[0]._resource_type, "vhost");
    assert_eq!(ps[1].permission, "read");
    assert_eq!(ps[1]._operation, "read");
    assert_eq!(ps[1].resource_name, "^amq");
}
