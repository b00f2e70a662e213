//! The messages that the gateway exchanges, and their mathematical views.

use vstd::prelude::*;

verus! {

/// The texts held by a list of strings.
pub open spec fn texts(list: Seq<String>) -> Seq<Seq<char>> {
    list.map_values(|s: String| s@)
}

/// The text held by a string, where there is one.
pub open spec fn text_of(text: Option<String>) -> Option<Seq<char>> {
    match text {
        Some(text) => Some(text@),
        None => None,
    }
}

/// A message between services, routed by its target or by its command.
#[derive(Debug)]
pub struct Message {
    pub source_service: String,
    pub target_service: String,
    pub cmd: String,
    pub user_id: String,
    pub metadata: String,
    /// Whatever else the message carries, in its encoded form. It is not looked
    /// at.
    pub extra: Vec<u8>,
}

/// What a [`Message`] holds.
pub struct MessageView {
    pub source_service: Seq<char>,
    pub target_service: Seq<char>,
    pub cmd: Seq<char>,
    pub user_id: Seq<char>,
    pub metadata: Seq<char>,
    pub extra: Seq<u8>,
}

impl View for Message {
    type V = MessageView;

    open spec fn view(&self) -> MessageView {
        MessageView {
            source_service: self.source_service@,
            target_service: self.target_service@,
            cmd: self.cmd@,
            user_id: self.user_id@,
            metadata: self.metadata@,
            extra: self.extra@,
        }
    }
}

impl MessageView {
    /// The same message, addressed to `target`.
    pub open spec fn addressed_to(self, target: Seq<char>) -> MessageView {
        MessageView { target_service: target, ..self }
    }
}

/// What a service says of itself when it registers.
#[derive(Debug)]
pub struct ServiceInfo {
    pub service_id: String,
    pub service_name: String,
    pub service_addr: String,
    pub commands: Vec<String>,
    pub health_check_interval_sec: i32,
}

/// What a [`ServiceInfo`] holds.
pub struct ServiceInfoView {
    pub service_id: Seq<char>,
    pub service_name: Seq<char>,
    pub service_addr: Seq<char>,
    pub commands: Seq<Seq<char>>,
    pub health_check_interval_sec: i32,
}

impl View for ServiceInfo {
    type V = ServiceInfoView;

    open spec fn view(&self) -> ServiceInfoView {
        ServiceInfoView {
            service_id: self.service_id@,
            service_name: self.service_name@,
            service_addr: self.service_addr@,
            commands: texts(self.commands@),
            health_check_interval_sec: self.health_check_interval_sec,
        }
    }
}

impl Clone for ServiceInfo {
    fn clone(&self) -> (copy: Self)
        ensures
            copy@ == self@,
    {
        let commands = self.commands.clone();
        assert(texts(commands@) =~= texts(self.commands@));
        ServiceInfo {
            service_id: self.service_id.clone(),
            service_name: self.service_name.clone(),
            service_addr: self.service_addr.clone(),
            commands,
            health_check_interval_sec: self.health_check_interval_sec,
        }
    }
}

/// The answer to a registration.
#[derive(Debug)]
pub struct RegisterResponse {
    pub success: bool,
    pub message: String,
}

/// A question for the health of one service.
#[derive(Debug)]
pub struct HealthCheckRequest {
    pub service_id: String,
}

/// The answer to a [`HealthCheckRequest`].
#[derive(Debug)]
pub struct HealthCheckResponse {
    pub status: i32,
    pub message: String,
}

/// Health status of a service that answers requests.
pub const SERVING: i32 = 1;

/// Health status of a service that is registered but does not answer.
pub const NOT_SERVING: i32 = 2;

/// Health status of a service that never registered.
pub const SERVICE_UNKNOWN: i32 = 3;

/// The gRPC status number of a request for something that does not exist.
pub const CODE_NOT_FOUND: i32 = 5;

/// The gRPC status number of a peer that cannot be reached.
pub const CODE_UNAVAILABLE: i32 = 14;

/// A refusal: a gRPC status number and a text.
#[derive(Debug)]
pub struct Status {
    pub code: i32,
    pub message: String,
}

/// What a [`Status`] holds.
pub struct StatusView {
    pub code: i32,
    pub message: Seq<char>,
}

impl View for Status {
    type V = StatusView;

    open spec fn view(&self) -> StatusView {
        StatusView { code: self.code, message: self.message@ }
    }
}

/// How a service is chosen among the healthy ones that support a command.
#[derive(Clone, Copy, Debug, PartialEq, Eq, Structural)]
pub enum RoutingStrategy {
    /// Each of the list in turn.
    RoundRobin,
    /// The first of the list.
    FirstAvailable,
    /// Any of the list, by chance.
    Random,
}

} // verus!
