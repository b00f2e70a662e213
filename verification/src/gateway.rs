//! The gateway: the requests that it serves, on top of the router.

use dashmap::DashMap;
use vstd::prelude::*;

use crate::chance::{is_uuid_text, random_uuid};
use crate::metadata::{inspect_metadata, is_report, MetadataReport};
use crate::model::RouterView;
use crate::router::{dispatch_of, Dispatch, Registration, Router};
use crate::tables::{handles_in, insert_handle, new_handles, remove_handle};
use crate::text::join;
use crate::types::{
    HealthCheckRequest, HealthCheckResponse, Message, RegisterResponse, ServiceInfo, Status,
    NOT_SERVING, SERVICE_UNKNOWN, SERVING,
};

verus! {

/// The gateway's state: the router, and the open streams. The sender of a
/// stream is stood for by a handle that the caller chooses.
#[derive(Debug)]
pub struct GatewayServiceImpl {
    router: Router,
    streams: DashMap<String, u64>,
}

/// What a gateway holds.
#[verifier::ext_equal]
pub struct GatewayView {
    pub router: RouterView,
    /// The sender of each open stream, by the stream's id.
    pub streams: Map<Seq<char>, u64>,
}

impl View for GatewayServiceImpl {
    type V = GatewayView;

    closed spec fn view(&self) -> GatewayView {
        GatewayView { router: self.router@, streams: handles_in(self.streams) }
    }
}

impl GatewayView {
    /// A stream was opened.
    pub open spec fn with_stream(self, id: Seq<char>, sender: u64) -> GatewayView {
        GatewayView { streams: self.streams.insert(id, sender), ..self }
    }

    /// A stream was closed.
    pub open spec fn without_stream(self, id: Seq<char>) -> GatewayView {
        GatewayView { streams: self.streams.remove(id), ..self }
    }

    /// One step was made.
    pub open spec fn after_step(self, step: StreamStep) -> GatewayView {
        match step {
            StreamStep::Opened { id, sender } => self.with_stream(id, sender),
            StreamStep::Closed { id } => self.without_stream(id),
        }
    }

    /// Steps were made, one after the other.
    pub open spec fn after_steps(self, history: Seq<StreamStep>) -> GatewayView
        decreases history.len(),
    {
        if history.len() == 0 {
            self
        } else {
            self.after_steps(history.drop_last()).after_step(history.last())
        }
    }
}

/// The opening of a stream under an id, with its sender, or its closing.
pub enum StreamStep {
    Opened { id: Seq<char>, sender: u64 },
    Closed { id: Seq<char> },
}

impl StreamStep {
    /// The id of the stream.
    pub open spec fn id(self) -> Seq<char> {
        match self {
            StreamStep::Opened { id, .. } => id,
            StreamStep::Closed { id } => id,
        }
    }
}

/// Step `i` opens the stream, and no later step opens or closes it.
pub open spec fn opens_last(history: Seq<StreamStep>, i: int, id: Seq<char>) -> bool {
    &&& 0 <= i < history.len()
    &&& history[i] is Opened
    &&& history[i].id() == id
    &&& forall|j: int| i < j < history.len() ==> (#[trigger] history[j]).id() != id
}

/// The stream was opened, and was not closed since.
pub open spec fn is_open(history: Seq<StreamStep>, id: Seq<char>) -> bool {
    exists|i: int| opens_last(history, i, id)
}

/// A stream is opened where its id is free, and closed where it is open.
pub open spec fn step_in_order(history: Seq<StreamStep>, step: StreamStep, i: int) -> bool {
    step is Closed <==> is_open(history.take(i), step.id())
}

/// Every step is in order.
pub open spec fn in_order(history: Seq<StreamStep>) -> bool {
    forall|i: int| 0 <= i < history.len() ==> step_in_order(history, #[trigger] history[i], i)
}

/// How many streams were opened, less how many were closed.
pub open spec fn opened_less_closed(history: Seq<StreamStep>) -> int
    decreases history.len(),
{
    if history.len() == 0 {
        0
    } else {
        opened_less_closed(history.drop_last()) + (if history.last() is Opened {
            1int
        } else {
            -1int
        })
    }
}

/// The status and the text that answer a question for the health of a service.
pub open spec fn health_answer(router: RouterView, id: Seq<char>) -> (i32, Seq<char>) {
    if !router.services.contains_key(id) {
        (SERVICE_UNKNOWN, "Service "@ + id + " not registered"@)
    } else if router.is_healthy(id) {
        (SERVING, "Service "@ + id + " is healthy"@)
    } else {
        (NOT_SERVING, "Service "@ + id + " is not healthy"@)
    }
}

/// A message that is to be forwarded: what its metadata says, and where it goes
/// or why it is refused.
#[derive(Debug)]
pub struct Forwarding {
    pub metadata: MetadataReport,
    pub dispatch: Result<Dispatch, Status>,
}

/// A stream that was opened.
#[derive(Debug)]
pub struct OpenedStream {
    pub stream_id: String,
    /// The sender that had the same id, which is no longer used.
    pub displaced: Option<u64>,
}

/// What happens on a stream.
#[derive(Debug)]
pub enum StreamEvent<R> {
    /// A message came in.
    Received(Message),
    /// Receiving failed.
    ReceiveFailed,
    /// The peer sends no more.
    Ended,
    /// A message was forwarded, with an answer or an error.
    Replied(R),
    /// The answer or error was handed to the peer.
    Sent,
    /// It could not be handed to the peer.
    SendFailed,
}

/// What is to be done on a stream next.
#[derive(Debug)]
pub enum StreamAction<R> {
    /// Wait for a message.
    Receive,
    /// Forward a message.
    Forward(Message),
    /// Hand an answer or an error to the peer.
    Send(R),
    /// Stop, and drop the sender that was kept for the stream.
    Close(Option<u64>),
}

/// The event ends the stream.
pub open spec fn ends_stream<R>(event: StreamEvent<R>) -> bool {
    event is ReceiveFailed || event is Ended || event is SendFailed
}

/// The answer to a registration that ended with an answer or with the text of
/// an error.
pub fn register_reply(outcome: Result<RegisterResponse, String>) -> (reply: RegisterResponse)
    ensures
        match outcome {
            Ok(response) => reply == response,
            Err(error) => {
                &&& !reply.success
                &&& reply.message@ == "Registration failed: "@ + error@
            },
        },
{
    match outcome {
        Ok(response) => response,
        Err(error) => {
            let message = join("Registration failed: ", error.as_str(), "");
            proof {
                reveal_strlit("");
                assert(message@ =~= "Registration failed: "@ + error@);
            }
            RegisterResponse { success: false, message }
        },
    }
}

impl GatewayServiceImpl {
    /// The tables are well-formed.
    pub open spec fn wf(&self) -> bool {
        self@.router.wf()
    }

    /// A gateway on top of a router, with no open stream.
    pub fn new(router: Router) -> (gateway: Self)
        ensures
            gateway@ == (GatewayView { router: router@, streams: Map::empty() }),
    {
        GatewayServiceImpl { router, streams: new_handles() }
    }

    /// The router.
    pub fn router(&self) -> (router: &Router)
        ensures
            router@ == self@.router,
    {
        &self.router
    }

    /// The router, to tell it what happened.
    pub fn router_mut(&mut self) -> (router: &mut Router)
        ensures
            router@ == old(self)@.router,
            final(self)@ == (GatewayView { router: final(router)@, ..old(self)@ }),
    {
        &mut self.router
    }

    /// A message is to be forwarded. Its metadata is looked at and has no part
    /// in where it goes.
    pub fn forward(&mut self, msg: Message) -> (forwarding: Forwarding)
        ensures
            is_report(forwarding.metadata, msg@.metadata),
            exists|draw: int| #[trigger]
                old(self)@.router.can_draw(msg@.cmd, draw) && dispatch_of(forwarding.dispatch)
                    == old(self)@.router.dispatched(msg@, old(self)@.router.route(msg@, draw)),
            final(self)@ == (GatewayView {
                router: old(self)@.router.after_route(msg@),
                ..old(self)@
            }),
            old(self).wf() ==> final(self).wf(),
    {
        let metadata = inspect_metadata(msg.metadata.as_str());
        let dispatch = self.router.forward_message(msg);
        Forwarding { metadata, dispatch }
    }

    /// A service asks to be registered.
    pub fn register(&mut self, info: &ServiceInfo) -> (start: Registration)
        ensures
            final(self)@ == (GatewayView {
                router: old(self)@.router.registered(info@),
                ..old(self)@
            }),
            start.cancel == old(self)@.router.health_check_handles.get(info@.service_id),
            start.endpoint@ == "http://"@ + info@.service_addr,
            old(self).wf() ==> final(self).wf(),
    {
        self.router.register_service(info)
    }

    /// A stream with the given id is opened.
    pub fn attach_stream(&mut self, stream_id: &str, sender: u64) -> (displaced: Option<u64>)
        ensures
            final(self)@ == old(self)@.with_stream(stream_id@, sender),
            displaced == old(self)@.streams.get(stream_id@),
    {
        insert_handle(&mut self.streams, stream_id.to_owned(), sender)
    }

    /// A stream is opened, under a new random id.
    pub fn stream(&mut self, sender: u64) -> (opened: OpenedStream)
        ensures
            is_uuid_text(opened.stream_id@),
            final(self)@ == old(self)@.with_stream(opened.stream_id@, sender),
            opened.displaced == old(self)@.streams.get(opened.stream_id@),
    {
        let stream_id = random_uuid();
        let displaced = self.attach_stream(stream_id.as_str(), sender);
        OpenedStream { stream_id, displaced }
    }

    /// Something happened on a stream. A message that came in is forwarded, what
    /// comes of it is sent back, be it an answer or an error, and then the next
    /// message is waited for. The stream is closed when the peer sends no more,
    /// or when receiving or sending fails.
    pub fn stream_event<R>(&mut self, stream_id: &str, event: StreamEvent<R>) -> (action:
        StreamAction<R>)
        ensures
            action == (match event {
                StreamEvent::Received(msg) => StreamAction::Forward(msg),
                StreamEvent::Replied(reply) => StreamAction::Send(reply),
                StreamEvent::Sent => StreamAction::Receive,
                _ => StreamAction::Close(old(self)@.streams.get(stream_id@)),
            }),
            final(self)@ == (if ends_stream(event) {
                old(self)@.without_stream(stream_id@)
            } else {
                old(self)@
            }),
    {
        match event {
            StreamEvent::Received(msg) => StreamAction::Forward(msg),
            StreamEvent::Replied(reply) => StreamAction::Send(reply),
            StreamEvent::Sent => StreamAction::Receive,
            StreamEvent::ReceiveFailed | StreamEvent::Ended | StreamEvent::SendFailed => {
                let sender = remove_handle(&mut self.streams, stream_id);
                StreamAction::Close(sender)
            },
        }
    }

    /// Answers a question for the health of a service.
    pub fn health_check(&self, request: HealthCheckRequest) -> (response: HealthCheckResponse)
        ensures
            (response.status, response.message@) == health_answer(
                self@.router,
                request.service_id@,
            ),
    {
        let service_id = request.service_id;
        if !self.router.is_registered(service_id.as_str()) {
            return HealthCheckResponse {
                status: SERVICE_UNKNOWN,
                message: join("Service ", service_id.as_str(), " not registered"),
            };
        }
        let is_healthy = self.router.is_healthy(service_id.as_str());
        let status: i32 = if is_healthy {
            SERVING
        } else {
            NOT_SERVING
        };
        let message = if is_healthy {
            join("Service ", service_id.as_str(), " is healthy")
        } else {
            join("Service ", service_id.as_str(), " is not healthy")
        };
        HealthCheckResponse { status, message }
    }
}

} // verus!
