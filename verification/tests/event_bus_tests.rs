use kendra::event_bus::{group_events_by_type, Event, EventBus, FilteredSubscriber, DEFAULT_CAPACITY};
use kendra::json::JsonValue;

fn obj(fields: Vec<(&str, JsonValue)>) -> JsonValue {
    JsonValue::Object(fields.into_iter().map(|(k, v)| (k.to_string(), v)).collect())
}

fn runtime() -> tokio::runtime::Runtime {
    tokio::runtime::Builder::new_current_thread().enable_all().build().unwrap()
}

fn group_len(groups: &[(String, Vec<&Event>)], kind: &str) -> usize {
    groups.iter().find(|(k, _)| k == kind).map(|(_, v)| v.len()).unwrap()
}

#[test]
fn test_event_creation() {
    let event = Event::new("test", "component", obj(vec![("key", JsonValue::Str("value".to_string()))]));
    assert_eq!(event.event_type, "test");
    assert_eq!(event.source, "component");
    assert!(event.timestamp_ms > 0);
}

#[test]
fn test_bus_creation() {
    let bus = EventBus::new();
    assert_eq!(bus.subscriber_count(), 0);
    assert_eq!(bus.capacity(), DEFAULT_CAPACITY);
}

#[test]
fn test_publish_subscribe() {
    runtime().block_on(async {
        let bus = EventBus::new();
        let mut rx = bus.subscribe();
        bus.emit("test_event", "test", obj(vec![("count", JsonValue::Number("1".to_string()))]));
        let event = rx.recv().await.unwrap();
        assert_eq!(event.event_type, "test_event");
        assert_eq!(event.data.get("count").and_then(|v| v.as_u64()), Some(1));
    });
}

#[test]
fn test_multiple_subscribers() {
    runtime().block_on(async {
        let bus = EventBus::new();
        let mut rx1 = bus.subscribe();
        let mut rx2 = bus.subscribe();
        assert_eq!(bus.subscriber_count(), 2);
        bus.emit("event", "src", JsonValue::Null);
        let e1 = rx1.recv().await.unwrap();
        let e2 = rx2.recv().await.unwrap();
        assert_eq!(e1.event_type, "event");
        assert_eq!(e2.event_type, "event");
    });
}

#[test]
fn test_filtered_subscriber() {
    runtime().block_on(async {
        let bus = EventBus::new();
        let mut sub = FilteredSubscriber::new(&bus, Some(vec!["wanted".to_string()]));
        bus.emit("unwanted", "src", JsonValue::Null);
        bus.emit("wanted", "src", obj(vec![("ok", JsonValue::Bool(true))]));
        let event = loop {
            let event = sub.receiver.recv().await.unwrap();
            if sub.wants(&event.event_type) {
                break event;
            }
        };
        assert_eq!(event.event_type, "wanted");
    });
}

#[test]
fn test_no_subscribers() {
    let bus = EventBus::new();
    bus.emit("event", "src", JsonValue::Null);
    assert_eq!(bus.subscriber_count(), 0);
}

#[test]
fn test_group_events_by_type() {
    let events = vec![
        Event::new("a", "src", JsonValue::Null),
        Event::new("b", "src", JsonValue::Null),
        Event::new("a", "src", JsonValue::Null),
    ];
    let groups = group_events_by_type(&events);
    assert_eq!(group_len(&groups, "a"), 2);
    assert_eq!(group_len(&groups, "b"), 1);
}

#[test]
fn test_group_events_keeps_first_appearance_order() {
    let events = vec![
        Event::new("b", "one", JsonValue::Null),
        Event::new("a", "two", JsonValue::Null),
        Event::new("b", "three", JsonValue::Null),
    ];
    let groups = group_events_by_type(&events);
    assert_eq!(groups.len(), 2);
    assert_eq!(groups[0].0, "b");
    assert_eq!(groups[0].1[0].source, "one");
    assert_eq!(groups[0].1[1].source, "three");
    assert_eq!(groups[1].0, "a");
    assert_eq!(groups[1].1[0].source, "two");
}

#[test]
fn test_group_events_empty() {
    let groups = group_events_by_type(&[]);
    assert!(groups.is_empty());
}

#[test]
fn test_bus_clone() {
    let bus1 = EventBus::new();
    let _rx = bus1.subscribe();
    let bus2 = bus1.clone();
    assert_eq!(bus2.subscriber_count(), 1);
}

#[test]
fn test_debug_format() {
    let bus = EventBus::new();
    let debug_str = format!("{:?}", bus);
    assert!(debug_str.contains("EventBus"));
}

#[test]
fn test_filter_wants() {
    let bus = EventBus::with_capacity(4);
    assert_eq!(bus.capacity(), 4);
    let all = FilteredSubscriber::new(&bus, None);
    assert!(all.wants("anything"));
    let some = FilteredSubscriber::new(&bus, Some(vec!["x".to_string(), "y".to_string()]));
    assert!(some.wants("y"));
    assert!(!some.wants("z"));
    let none = FilteredSubscriber::new(&bus, Some(vec![]));
    assert!(!none.wants("x"));
}

#[test]
fn test_event_clone_keeps_fields() {
    let e = Event::new("k", "s", JsonValue::Bool(false));
    let c = e.clone();
    assert_eq!(c.event_type, "k");
    assert_eq!(c.source, "s");
    assert!(matches!(c.data, JsonValue::Bool(false)));
    assert_eq!(c.timestamp_ms, e.timestamp_ms);
}
