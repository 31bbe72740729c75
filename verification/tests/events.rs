use gossip_expire::event::{
    init_stream, publish, service_started, service_stopped, stream_initialized, take_events,
    EventConnectionInfo, EventCore, EventStream, ServiceEventKind, ServiceInfo,
};

fn conn() -> EventConnectionInfo {
    EventConnectionInfo::new("n".to_string(), false, "uri".to_string(), "cluster".to_string())
}

#[test]
fn uninitialized_stream_drops_events() {
    let mut stream = EventStream::new();
    assert!(!stream_initialized(&stream));
    service_started(&mut stream, &ServiceInfo { name: "web".to_string() });
    publish(&mut stream, ServiceEventKind::Stopped, "db".to_string());
    assert!(take_events(&mut stream).is_empty());
}

#[test]
fn init_stream_takes_effect_once() {
    let mut stream = EventStream::new();
    init_stream(&mut stream, conn(), EventCore { supervisor_id: "sup-1".to_string() });
    assert!(stream_initialized(&stream));
    // A later call changes nothing: the first supervisor id stays.
    init_stream(&mut stream, conn(), EventCore { supervisor_id: "sup-2".to_string() });
    service_started(&mut stream, &ServiceInfo { name: "web".to_string() });
    let events = take_events(&mut stream);
    assert_eq!(events.len(), 1);
    assert_eq!(events[0].supervisor_id, "sup-1");
}

#[test]
fn events_carry_metadata_in_publish_order() {
    let mut stream = EventStream::new();
    init_stream(&mut stream, conn(), EventCore { supervisor_id: "sup".to_string() });
    service_started(&mut stream, &ServiceInfo { name: "web".to_string() });
    service_stopped(&mut stream, &ServiceInfo { name: "db".to_string() });
    let events = take_events(&mut stream);
    assert_eq!(events.len(), 2);
    assert_eq!(events[0].kind, ServiceEventKind::Started);
    assert_eq!(events[0].service_name, "web");
    assert_eq!(events[0].supervisor_id, "sup");
    assert_eq!(events[1].kind, ServiceEventKind::Stopped);
    assert_eq!(events[1].service_name, "db");
    assert_eq!(events[1].supervisor_id, "sup");
    // The queue was emptied by the hand-over.
    assert!(take_events(&mut stream).is_empty());
    assert!(stream_initialized(&stream));
}

#[test]
fn default_connection_points_at_localhost() {
    let info = EventConnectionInfo::default();
    assert_eq!(info.name, "habitat");
    assert!(info.verbose);
    assert_eq!(info.cluster_uri, "127.0.0.1:4223");
    assert_eq!(info.cluster_id, "test-cluster");
}
