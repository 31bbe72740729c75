//! The supervisor event stream's decision core: whether the stream has been
//! initialized, which events are queued and with what shared metadata
//! attached. The transport that carries the queued events to a messaging
//! server lives with the caller; it drains the queue and performs the
//! sends. Ambient global state is replaced by an explicit `EventStream`
//! value handed to each operation.

use vstd::prelude::*;

verus! {

/// All the information needed to establish a connection to the event
/// streaming server.
pub struct EventConnectionInfo {
    pub name: String,
    pub verbose: bool,
    pub cluster_uri: String,
    pub cluster_id: String,
}

impl EventConnectionInfo {
    pub fn new(name: String, verbose: bool, cluster_uri: String, cluster_id: String) -> (r:
        EventConnectionInfo)
        ensures
            r.name == name,
            r.verbose == verbose,
            r.cluster_uri == cluster_uri,
            r.cluster_id == cluster_id,
    {
        EventConnectionInfo { name, verbose, cluster_uri, cluster_id }
    }
}

/// Default connection information for a streaming server on localhost.
impl Default for EventConnectionInfo {
    fn default() -> (r: EventConnectionInfo)
        ensures
            r.name@ == "habitat"@,
            r.verbose == true,
            r.cluster_uri@ == "127.0.0.1:4223"@,
            r.cluster_id@ == "test-cluster"@,
    {
        EventConnectionInfo {
            name: "habitat".to_owned(),
            verbose: true,
            cluster_uri: "127.0.0.1:4223".to_owned(),
            cluster_id: "test-cluster".to_owned(),
        }
    }
}

/// Data present in every event, represented once and merged into each
/// event as it is published.
pub struct EventCore {
    /// The unique identifier of the supervisor sending the event.
    pub supervisor_id: String,
}

#[derive(Clone, Copy, Debug, PartialEq, Eq, Structural)]
pub enum ServiceEventKind {
    Started,
    Stopped,
}

/// What this core reads of a service when an event about it is published.
pub struct ServiceInfo {
    pub name: String,
}

/// One queued event: its kind, the service it concerns, and the shared
/// supervisor metadata merged in at publish time.
pub struct ServiceEvent {
    pub kind: ServiceEventKind,
    pub service_name: String,
    pub supervisor_id: String,
}

/// The event stream's state: the shared metadata and connection
/// information stashed at initialization, and the events queued for the
/// transport.
pub struct EventStream {
    pub core: Option<EventCore>,
    pub conn: Option<EventConnectionInfo>,
    pub queue: Vec<ServiceEvent>,
}

impl EventStream {
    pub open spec fn initialized(self) -> bool {
        self.core is Some
    }

    pub fn new() -> (r: EventStream)
        ensures
            !r.initialized(),
            r.queue@.len() == 0,
    {
        EventStream { core: None, conn: None, queue: Vec::new() }
    }
}

/// Stashes the connection information and the core event metadata, once:
/// the first call initializes the stream and later calls change nothing,
/// so the metadata every event carries is fixed at startup.
pub fn init_stream(stream: &mut EventStream, conn_info: EventConnectionInfo, event_core: EventCore)
    ensures
        old(stream).initialized() ==> *final(stream) == *old(stream),
        !old(stream).initialized() ==> final(stream).core == Some(event_core) && final(stream).conn
            == Some(conn_info) && final(stream).queue == old(stream).queue,
{
    if stream.core.is_none() {
        stream.core = Some(event_core);
        stream.conn = Some(conn_info);
    }
}

/// Whether `init_stream` has taken effect, so callers can skip building
/// event structures that would be dropped.
pub fn stream_initialized(stream: &EventStream) -> (b: bool)
    ensures
        b == stream.initialized(),
{
    stream.core.is_some()
}

/// Queues an event with the shared supervisor metadata merged in; a no-op
/// when the stream has not been initialized.
pub fn publish(stream: &mut EventStream, kind: ServiceEventKind, service_name: String)
    ensures
        !old(stream).initialized() ==> *final(stream) == *old(stream),
        old(stream).initialized() ==> final(stream).core == old(stream).core && final(stream).conn
            == old(stream).conn && final(stream).queue@ == old(stream).queue@.push(
            (ServiceEvent {
                kind: kind,
                service_name: service_name,
                supervisor_id: old(stream).core.unwrap().supervisor_id,
            }),
        ),
{
    let sid = match &stream.core {
        Some(c) => Some(c.supervisor_id.clone()),
        None => None,
    };
    match sid {
        Some(supervisor_id) => {
            stream.queue.push(ServiceEvent { kind, service_name, supervisor_id });
        },
        None => {},
    }
}

/// Publishes the start of a service, when the stream has been initialized.
pub fn service_started(stream: &mut EventStream, service: &ServiceInfo)
    ensures
        !old(stream).initialized() ==> *final(stream) == *old(stream),
        old(stream).initialized() ==> final(stream).core == old(stream).core && final(stream).conn
            == old(stream).conn && final(stream).queue@ == old(stream).queue@.push(
            (ServiceEvent {
                kind: ServiceEventKind::Started,
                service_name: service.name,
                supervisor_id: old(stream).core.unwrap().supervisor_id,
            }),
        ),
{
    publish(stream, ServiceEventKind::Started, service.name.clone());
}

/// Publishes the stop of a service, when the stream has been initialized.
pub fn service_stopped(stream: &mut EventStream, service: &ServiceInfo)
    ensures
        !old(stream).initialized() ==> *final(stream) == *old(stream),
        old(stream).initialized() ==> final(stream).core == old(stream).core && final(stream).conn
            == old(stream).conn && final(stream).queue@ == old(stream).queue@.push(
            (ServiceEvent {
                kind: ServiceEventKind::Stopped,
                service_name: service.name,
                supervisor_id: old(stream).core.unwrap().supervisor_id,
            }),
        ),
{
    publish(stream, ServiceEventKind::Stopped, service.name.clone());
}

/// Hands every queued event to the transport, in publish order, and leaves
/// the queue empty.
pub fn take_events(stream: &mut EventStream) -> (evs: Vec<ServiceEvent>)
    ensures
        evs@ == old(stream).queue@,
        final(stream).queue@.len() == 0,
        final(stream).core == old(stream).core,
        final(stream).conn == old(stream).conn,
{
    let mut evs: Vec<ServiceEvent> = Vec::new();
    core::mem::swap(&mut stream.queue, &mut evs);
    evs
}

} // verus!
