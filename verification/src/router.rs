//! The router: which service supports which command, over which connection it
//! is reached, and whether it is healthy.

use dashmap::DashMap;
use vstd::prelude::*;

use crate::chance::random_index;
use crate::laws::{
    law_connection_keeps_wf, law_health_checks_keep_wf, law_health_keeps_wf,
    law_registration_keeps_wf, law_routing_keeps_wf,
};
use crate::model::{check_interval, joined, picked, routes_with, DispatchView, RouterView};
use crate::tables::{
    flags_in, get_flag, get_handle, get_routes, get_strategy, handles_in, has_service, insert_flag,
    insert_handle, insert_routes, insert_service, list_at, lists_interval, new_flags, new_handles,
    new_routes, new_services, new_strategies, remove_handle, routes_in, routes_or_default,
    service_intervals, services_in, strategies_in,
};
use crate::text::join;
use crate::types::{
    text_of, texts, HealthCheckRequest, Message, RegisterResponse, RoutingStrategy, ServiceInfo,
    Status, StatusView, CODE_NOT_FOUND, CODE_UNAVAILABLE, SERVING,
};

verus! {

/// The routing tables of the gateway. A connection to a service and a task that
/// checks its health are stood for by handles that the caller chooses.
#[derive(Debug)]
pub struct Router {
    services: DashMap<String, ServiceInfo>,
    cmd_routes: DashMap<String, Vec<String>>,
    clients: DashMap<String, u64>,
    health_status: DashMap<String, bool>,
    routing_strategy: DashMap<String, RoutingStrategy>,
    default_strategy: RoutingStrategy,
    turns: DashMap<String, u64>,
    health_check_handles: DashMap<String, u64>,
}

impl View for Router {
    type V = RouterView;

    closed spec fn view(&self) -> RouterView {
        RouterView {
            services: services_in(self.services),
            cmd_routes: routes_in(self.cmd_routes),
            clients: handles_in(self.clients),
            health_status: flags_in(self.health_status),
            routing_strategy: strategies_in(self.routing_strategy),
            default_strategy: self.default_strategy,
            turns: handles_in(self.turns),
            health_check_handles: handles_in(self.health_check_handles),
        }
    }
}

/// What is to be done for a service that asked to be registered.
#[derive(Debug)]
pub struct Registration {
    /// The task to cancel, which checked the health of the service so far.
    pub cancel: Option<u64>,
    /// Where to connect to.
    pub endpoint: String,
}

/// What came of a registration.
#[derive(Debug)]
pub struct Registered {
    /// The answer to the service.
    pub response: RegisterResponse,
    /// The connection that is no longer used.
    pub replaced: Option<u64>,
    /// The interval in seconds at which to check the health of the service.
    pub check_interval: Option<u64>,
}

/// A message on its way to a service.
#[derive(Debug)]
pub struct Dispatch {
    /// The connection to send it on.
    pub client: u64,
    /// The message, addressed to the service.
    pub message: Message,
    /// The service was unhealthy when last heard of.
    pub known_unhealthy: bool,
}

impl View for Dispatch {
    type V = DispatchView;

    open spec fn view(&self) -> DispatchView {
        DispatchView {
            client: self.client,
            message: self.message@,
            known_unhealthy: self.known_unhealthy,
        }
    }
}

/// What a dispatch or a refusal holds.
pub open spec fn dispatch_of(dispatch: Result<Dispatch, Status>) -> Result<
    DispatchView,
    StatusView,
> {
    match dispatch {
        Ok(dispatch) => Ok(dispatch@),
        Err(status) => Err(status@),
    }
}

/// Why a service did not answer a message: the gRPC status number, and the
/// status as the transport reported it.
#[derive(Debug)]
pub struct Failure<S> {
    pub code: i32,
    pub status: S,
}

/// A question to a service for its health.
#[derive(Debug)]
pub struct HealthProbe {
    /// The connection to send it on.
    pub client: u64,
    /// The question.
    pub request: HealthCheckRequest,
}

/// What is to be done to check the health of one service from now on.
#[derive(Debug)]
pub struct HealthCheckPlan {
    pub service_id: String,
    /// The task to cancel, which checked its health so far.
    pub cancel: Option<u64>,
    /// The interval in seconds at which to check it.
    pub check_interval: Option<u64>,
}

/// `plan` is what is to be done for one of the registered services: the task
/// that checked its health is to be cancelled, and a new one is to be started
/// where the service asked for checks.
pub open spec fn is_plan(router: RouterView, plan: HealthCheckPlan) -> bool {
    let id = plan.service_id@;
    &&& router.services.contains_key(id)
    &&& plan.cancel == router.health_check_handles.get(id)
    &&& plan.check_interval == check_interval(router.services[id].health_check_interval_sec)
}

/// `plans` is what is to be done for all of them, each service once, in any
/// order.
pub open spec fn are_plans(router: RouterView, plans: Seq<HealthCheckPlan>) -> bool {
    &&& forall|i: int| 0 <= i < plans.len() ==> is_plan(router, #[trigger] plans[i])
    &&& forall|i: int, j: int|
        0 <= i < j < plans.len() ==> (#[trigger] plans[i]).service_id@ != (
        #[trigger] plans[j]).service_id@
    &&& forall|id: Seq<char>| #[trigger]
        router.services.contains_key(id) ==> exists|i: int|
            0 <= i < plans.len() && (#[trigger] plans[i]).service_id@ == id
}

/// Whether a list of services has the service `id`.
fn has_text(list: &Vec<String>, id: &String) -> (found: bool)
    ensures
        found == texts(list@).contains(id@),
{
    let mut i: usize = 0;
    while i < list.len()
        invariant
            i <= list@.len(),
            forall|j: int| 0 <= j < i ==> (#[trigger] list@[j])@ != id@,
        decreases list@.len() - i,
    {
        if list[i] == *id {
            assert(texts(list@)[i as int] == id@);
            return true;
        }
        i = i + 1;
    }
    assert forall|j: int| 0 <= j < texts(list@).len() implies texts(list@)[j] != id@ by {
        assert(texts(list@)[j] == list@[j]@);
    }
    false
}

/// The interval in seconds at which a service wants its health checked.
fn positive_interval(interval_sec: i32) -> (interval: Option<u64>)
    ensures
        interval == check_interval(interval_sec),
{
    if interval_sec > 0 {
        Some(interval_sec as u64)
    } else {
        None
    }
}

/// Where to connect to a service: its address, over plain HTTP.
pub fn service_endpoint(info: &ServiceInfo) -> (endpoint: String)
    ensures
        endpoint@ == "http://"@ + info@.service_addr,
{
    let endpoint = join("http://", info.service_addr.as_str(), "");
    proof {
        reveal_strlit("");
        assert(endpoint@ =~= "http://"@ + info@.service_addr);
    }
    endpoint
}

/// The service that a strategy picks of a list of healthy ones, where `turn` is
/// the index whose turn it is and `draw` is the index that chance gave.
pub fn pick_service(
    strategy: RoutingStrategy,
    healthy: &Vec<String>,
    turn: usize,
    draw: usize,
) -> (picked_id: String)
    requires
        turn < healthy@.len(),
        draw < healthy@.len(),
    ensures
        picked_id@ == picked(strategy, texts(healthy@), turn as int, draw as int),
{
    match strategy {
        RoutingStrategy::FirstAvailable => healthy[0].clone(),
        RoutingStrategy::Random => healthy[draw].clone(),
        RoutingStrategy::RoundRobin => healthy[turn].clone(),
    }
}

/// The service that a strategy picks of a list of healthy ones, where `turn` is
/// the index whose turn it is. Chance has a part in it only where the strategy
/// says so.
pub fn choose_service(strategy: RoutingStrategy, healthy: &Vec<String>, turn: usize) -> (chosen:
    String)
    requires
        turn < healthy@.len(),
    ensures
        exists|draw: int|
            0 <= draw < healthy@.len() && chosen@ == #[trigger] picked(
                strategy,
                texts(healthy@),
                turn as int,
                draw,
            ),
{
    let draw: usize = match strategy {
        RoutingStrategy::Random => random_index(healthy.len()),
        RoutingStrategy::FirstAvailable => 0,
        RoutingStrategy::RoundRobin => 0,
    };
    pick_service(strategy, healthy, turn, draw)
}

/// Whether what a service answered to a question for its health means that it
/// is healthy: it does where the answer is that it is serving, and only then.
pub fn is_serving(status: Option<i32>) -> (healthy: bool)
    ensures
        healthy == (status == Some(SERVING)),
{
    match status {
        Some(status) => status == SERVING,
        None => false,
    }
}

impl Router {
    /// The tables are well-formed.
    pub open spec fn wf(&self) -> bool {
        self@.wf()
    }

    /// A router that knows of no service.
    pub fn new() -> (router: Self)
        ensures
            router@ == RouterView::initial(),
            router.wf(),
    {
        Router {
            services: new_services(),
            cmd_routes: new_routes(),
            clients: new_handles(),
            health_status: new_flags(),
            routing_strategy: new_strategies(),
            default_strategy: RoutingStrategy::RoundRobin,
            turns: new_handles(),
            health_check_handles: new_handles(),
        }
    }

    /// Puts a service into the list of each of its commands.
    fn add_routes(&mut self, commands: &Vec<String>, id: &String)
        ensures
            final(self)@ == (RouterView {
                cmd_routes: routes_with(old(self)@.cmd_routes, texts(commands@), id@),
                ..old(self)@
            }),
    {
        let ghost before = self@;
        let ghost cmds = texts(commands@);
        assert(self@.cmd_routes =~= routes_with(before.cmd_routes, cmds.take(0), id@));
        let mut i: usize = 0;
        while i < commands.len()
            invariant
                i <= commands@.len(),
                cmds == texts(commands@),
                self@ == (RouterView {
                    cmd_routes: routes_with(before.cmd_routes, cmds.take(i as int), id@),
                    ..before
                }),
            decreases commands@.len() - i,
        {
            let ghost routes = self@.cmd_routes;
            let cmd = &commands[i];
            let mut list = routes_or_default(&mut self.cmd_routes, cmd.clone());
            if !has_text(&list, id) {
                let ghost listed = texts(list@);
                list.push(id.clone());
                assert(texts(list@) =~= listed.push(id@));
                insert_routes(&mut self.cmd_routes, cmd.clone(), list);
            }
            proof {
                let done = cmds.take(i as int);
                let next = cmds.take(i + 1);
                assert(cmds[i as int] == cmd@);
                assert(next =~= done.push(cmd@));
                assert(next.contains(cmd@)) by {
                    assert(next[i as int] == cmd@);
                }
                assert forall|other: Seq<char>| next.contains(other) <==> (done.contains(other)
                    || other == cmd@) by {
                    if done.contains(other) {
                        let k = choose|k: int| 0 <= k < done.len() && done[k] == other;
                        assert(next[k] == other);
                    }
                }
                assert(joined(joined(list_at(before.cmd_routes, cmd@), id@), id@) == joined(
                    list_at(before.cmd_routes, cmd@),
                    id@,
                )) by {
                    let base = list_at(before.cmd_routes, cmd@);
                    assert(base.push(id@)[base.len() as int] == id@);
                }
                assert(self@.cmd_routes =~= routes.insert(cmd@, joined(list_at(routes, cmd@), id@)));
                assert(self@.cmd_routes =~= routes_with(before.cmd_routes, next, id@));
            }
            i = i + 1;
        }
        assert(cmds.take(i as int) =~= cmds);
    }

    /// A service asks to be registered. It is known from then on, it is in the
    /// list of each of its commands, behind those that came before, and the
    /// task that checked its health is to be cancelled. A connection to it is to
    /// be made next, and [`Router::complete_registration`] told what came of it.
    pub fn register_service(&mut self, info: &ServiceInfo) -> (start: Registration)
        ensures
            final(self)@ == old(self)@.registered(info@),
            start.cancel == old(self)@.health_check_handles.get(info@.service_id),
            start.endpoint@ == "http://"@ + info@.service_addr,
            old(self).wf() ==> final(self).wf(),
    {
        let ghost before = self@;
        let cancel = remove_handle(&mut self.health_check_handles, info.service_id.as_str());
        insert_service(&mut self.services, info.service_id.clone(), info.clone());
        self.add_routes(&info.commands, &info.service_id);
        proof {
            assert(self@ =~= before.registered(info@));
            if before.wf() {
                law_registration_keeps_wf(before, info@);
            }
        }
        Registration { cancel, endpoint: service_endpoint(info) }
    }

    /// The attempt to connect to a service that registers ended, with the handle
    /// of the connection or with the text of an error. With a connection the
    /// service is taken to be healthy, and its health is to be checked where it
    /// asked for that. Without one it stays registered as it is.
    pub fn complete_registration(
        &mut self,
        info: &ServiceInfo,
        connection: Result<u64, String>,
    ) -> (done: Registered)
        ensures
            match connection {
                Ok(client) => {
                    &&& final(self)@ == old(self)@.connected(info@.service_id, client)
                    &&& done.response.success
                    &&& done.response.message@ == "Service "@ + info@.service_name
                        + " registered successfully"@
                    &&& done.replaced == old(self)@.clients.get(info@.service_id)
                    &&& done.check_interval == check_interval(info@.health_check_interval_sec)
                },
                Err(error) => {
                    &&& final(self)@ == old(self)@
                    &&& !done.response.success
                    &&& done.response.message@ == "Failed to connect to service: "@ + error@
                    &&& done.replaced is None
                    &&& done.check_interval is None
                },
            },
            old(self).wf() && old(self)@.services.contains_key(info@.service_id)
                ==> final(self).wf(),
    {
        let ghost before = self@;
        match connection {
            Ok(client) => {
                let replaced = insert_handle(&mut self.clients, info.service_id.clone(), client);
                insert_flag(&mut self.health_status, info.service_id.clone(), true);
                proof {
                    assert(self@ =~= before.connected(info@.service_id, client));
                    if before.wf() && before.services.contains_key(info@.service_id) {
                        law_connection_keeps_wf(before, info@.service_id, client);
                    }
                }
                Registered {
                    response: RegisterResponse {
                        success: true,
                        message: join(
                            "Service ",
                            info.service_name.as_str(),
                            " registered successfully",
                        ),
                    },
                    replaced,
                    check_interval: positive_interval(info.health_check_interval_sec),
                }
            },
            Err(error) => {
                let message = join("Failed to connect to service: ", error.as_str(), "");
                proof {
                    reveal_strlit("");
                    assert(message@ =~= "Failed to connect to service: "@ + error@);
                }
                Registered {
                    response: RegisterResponse { success: false, message },
                    replaced: None,
                    check_interval: None,
                }
            },
        }
    }

    /// The attempt to connect anew to a known service ended, with the handle of
    /// the connection or with the text of an error. The connection that is no
    /// longer used is returned.
    pub fn complete_reconnect(
        &mut self,
        service_id: &str,
        connection: Result<u64, String>,
    ) -> (done: Result<Option<u64>, String>)
        ensures
            match connection {
                Ok(client) => {
                    &&& final(self)@ == old(self)@.reconnected(service_id@, client)
                    &&& done == Ok::<Option<u64>, String>(old(self)@.clients.get(service_id@))
                },
                Err(error) => {
                    &&& final(self)@ == old(self)@
                    &&& done is Err
                    &&& done->Err_0@ == "Failed to reconnect: "@ + error@
                },
            },
            old(self).wf() && old(self)@.services.contains_key(service_id@) ==> final(self).wf(),
    {
        let ghost before = self@;
        match connection {
            Ok(client) => {
                let replaced = insert_handle(&mut self.clients, service_id.to_owned(), client);
                proof {
                    assert(self@ =~= before.reconnected(service_id@, client));
                    if before.wf() && before.services.contains_key(service_id@) {
                        law_connection_keeps_wf(before, service_id@, client);
                    }
                }
                Ok(replaced)
            },
            Err(error) => {
                let message = join("Failed to reconnect: ", error.as_str(), "");
                proof {
                    reveal_strlit("");
                    assert(message@ =~= "Failed to reconnect: "@ + error@);
                }
                Err(message)
            },
        }
    }

    /// Whether a service is known to be healthy.
    pub fn is_healthy(&self, service_id: &str) -> (healthy: bool)
        ensures
            healthy == self@.is_healthy(service_id@),
    {
        match get_flag(&self.health_status, service_id) {
            Some(status) => status,
            None => false,
        }
    }

    /// Whether a service is registered.
    pub fn is_registered(&self, service_id: &str) -> (registered: bool)
        ensures
            registered == self@.services.contains_key(service_id@),
    {
        has_service(&self.services, service_id)
    }

    /// The healthy ones of a list of services, in the same order.
    fn healthy_services(&self, services: &Vec<String>) -> (healthy: Vec<String>)
        ensures
            texts(healthy@) == texts(services@).filter(self@.health_filter()),
    {
        let ghost ids = texts(services@);
        let ghost is_healthy = self@.health_filter();
        let mut healthy: Vec<String> = Vec::new();
        proof {
            reveal(Seq::filter);
            assert(texts(healthy@) =~= ids.take(0).filter(is_healthy));
        }
        let mut i: usize = 0;
        while i < services.len()
            invariant
                i <= services@.len(),
                ids == texts(services@),
                is_healthy == self@.health_filter(),
                texts(healthy@) == ids.take(i as int).filter(is_healthy),
            decreases services@.len() - i,
        {
            let ghost found = texts(healthy@);
            let id = &services[i];
            proof {
                reveal(Seq::filter);
                assert(ids[i as int] == id@);
                assert(ids.take(i + 1).drop_last() =~= ids.take(i as int));
                assert(ids.take(i + 1).last() == id@);
            }
            if self.is_healthy(id.as_str()) {
                healthy.push(id.clone());
                assert(texts(healthy@) =~= found.push(id@));
            }
            i = i + 1;
        }
        assert(ids.take(i as int) =~= ids);
        healthy
    }

    /// The turn of a command among its `len` healthy services, and the step to
    /// the next turn.
    fn take_turn(&mut self, cmd: &String, len: usize) -> (turn: usize)
        requires
            len > 0,
            old(self)@.healthy_candidates(cmd@).len() == len,
        ensures
            turn == old(self)@.turn(cmd@),
            turn < len,
            final(self)@ == (RouterView {
                turns: old(self)@.turns.insert(cmd@, ((turn + 1) % len as int) as u64),
                ..old(self)@
            }),
    {
        let kept: u64 = match get_handle(&self.turns, cmd.as_str()) {
            Some(kept) => kept,
            None => 0,
        };
        let turn: usize = (kept % (len as u64)) as usize;
        let next: usize = (turn + 1) % len;
        insert_handle(&mut self.turns, cmd.clone(), next as u64);
        turn
    }

    /// The service that a message goes to: the target that it names; else, of
    /// the services that support its command, a healthy one as the strategy for
    /// the command picks it; else the first of them; else none. Where services
    /// are picked in turn, the turn passes on.
    pub fn determine_route(&mut self, msg: &Message) -> (route: Option<String>)
        ensures
            exists|draw: int| #[trigger]
                old(self)@.can_draw(msg@.cmd, draw) && text_of(route) == old(self)@.route(
                    msg@,
                    draw,
                ),
            final(self)@ == old(self)@.after_route(msg@),
            old(self).wf() ==> final(self).wf(),
    {
        let ghost before = self@;
        proof {
            if before.wf() {
                law_routing_keeps_wf(before, msg@);
            }
        }
        if !msg.target_service.as_str().is_empty() {
            assert(before.can_draw(msg@.cmd, 0));
            return Some(msg.target_service.clone());
        }
        let strategy = match get_strategy(&self.routing_strategy, msg.cmd.as_str()) {
            Some(strategy) => strategy,
            None => self.default_strategy,
        };
        if let Some(services) = get_routes(&self.cmd_routes, msg.cmd.as_str()) {
            if !services.is_empty() {
                let healthy = self.healthy_services(&services);
                assert(texts(healthy@) == before.healthy_candidates(msg@.cmd));
                if healthy.is_empty() {
                    assert(before.can_draw(msg@.cmd, 0));
                    return Some(services[0].clone());
                }
                let turn: usize = match strategy {
                    RoutingStrategy::RoundRobin => self.take_turn(&msg.cmd, healthy.len()),
                    RoutingStrategy::FirstAvailable => 0,
                    RoutingStrategy::Random => 0,
                };
                assert(self@ =~= before.after_route(msg@));
                let chosen = choose_service(strategy, &healthy, turn);
                proof {
                    let draw = choose|draw: int|
                        0 <= draw < healthy@.len() && chosen@ == #[trigger] picked(
                            strategy,
                            texts(healthy@),
                            turn as int,
                            draw,
                        );
                    assert(before.can_draw(msg@.cmd, draw));
                }
                return Some(chosen);
            }
        }
        assert(before.healthy_candidates(msg@.cmd).len() == 0) by {
            reveal(Seq::filter);
        }
        assert(before.can_draw(msg@.cmd, 0));
        None
    }

    /// What becomes of a message with the given route: it is to be sent, or it
    /// is refused.
    pub fn dispatch(&self, msg: Message, route: Option<String>) -> (dispatch: Result<
        Dispatch,
        Status,
    >)
        ensures
            dispatch_of(dispatch) == self@.dispatched(msg@, text_of(route)),
    {
        let target_service = match route {
            Some(service) => service,
            None => {
                return Err(
                    Status {
                        code: CODE_NOT_FOUND,
                        message: "No service found for the given command".to_owned(),
                    },
                );
            },
        };
        let client = match get_handle(&self.clients, target_service.as_str()) {
            Some(client) => client,
            None => {
                return Err(
                    Status {
                        code: CODE_UNAVAILABLE,
                        message: "Service connection not available".to_owned(),
                    },
                );
            },
        };
        let known_unhealthy = match get_flag(&self.health_status, target_service.as_str()) {
            Some(is_healthy) => !is_healthy,
            None => false,
        };
        let mut message = msg;
        message.target_service = target_service;
        Ok(Dispatch { client, message, known_unhealthy })
    }

    /// A message is to be forwarded: it is routed, and then dispatched or
    /// refused. Once it was sent, [`Router::complete_forward`] is to be told what
    /// came of it.
    pub fn forward_message(&mut self, msg: Message) -> (dispatch: Result<Dispatch, Status>)
        ensures
            exists|draw: int| #[trigger]
                old(self)@.can_draw(msg@.cmd, draw) && dispatch_of(dispatch)
                    == old(self)@.dispatched(msg@, old(self)@.route(msg@, draw)),
            final(self)@ == old(self)@.after_route(msg@),
            old(self).wf() ==> final(self).wf(),
    {
        let ghost before = self@;
        let route = self.determine_route(&msg);
        let dispatch = self.dispatch(msg, route);
        assert(dispatch_of(dispatch) == before.dispatched(msg@, text_of(route)));
        dispatch
    }

    /// A service answered a message, or failed to. A service that cannot be
    /// reached is no longer healthy. The answer, or the status as the transport
    /// reported it, is handed on.
    pub fn complete_forward<R, S>(
        &mut self,
        target_service: &str,
        reply: Result<R, Failure<S>>,
    ) -> (relayed: Result<R, S>)
        ensures
            match reply {
                Ok(response) => {
                    &&& relayed == Ok::<R, S>(response)
                    &&& final(self)@ == old(self)@
                },
                Err(failure) => {
                    &&& relayed == Err::<R, S>(failure.status)
                    &&& final(self)@ == (if failure.code == CODE_UNAVAILABLE {
                        old(self)@.with_health(target_service@, false)
                    } else {
                        old(self)@
                    })
                },
            },
            old(self).wf() && old(self)@.services.contains_key(target_service@)
                ==> final(self).wf(),
    {
        let ghost before = self@;
        match reply {
            Ok(response) => Ok(response),
            Err(failure) => {
                if failure.code == CODE_UNAVAILABLE {
                    insert_flag(&mut self.health_status, target_service.to_owned(), false);
                    proof {
                        assert(self@ =~= before.with_health(target_service@, false));
                        if before.wf() && before.services.contains_key(target_service@) {
                            law_health_keeps_wf(before, target_service@, false);
                        }
                    }
                }
                Err(failure.status)
            },
        }
    }

    /// The health of a service is to be checked: it is to be asked over the
    /// connection to it, where there is one. [`Router::complete_health_check`]
    /// is to be told the status that it answered, or that there was no answer.
    pub fn check_service_health(&self, service_id: &str) -> (probe: Option<HealthProbe>)
        ensures
            match probe {
                Some(probe) => {
                    &&& self@.clients.contains_key(service_id@)
                    &&& probe.client == self@.clients[service_id@]
                    &&& probe.request.service_id@ == service_id@
                },
                None => !self@.clients.contains_key(service_id@),
            },
    {
        match get_handle(&self.clients, service_id) {
            Some(client) => Some(
                HealthProbe {
                    client,
                    request: HealthCheckRequest { service_id: service_id.to_owned() },
                },
            ),
            None => None,
        }
    }

    /// A health check of a service ended, with the status that the service
    /// answered or with no answer. It is healthy where it answered that it is
    /// serving, and only then.
    pub fn complete_health_check(&mut self, service_id: &str, status: Option<i32>) -> (healthy:
        bool)
        ensures
            healthy == (status == Some(SERVING)),
            final(self)@ == old(self)@.with_health(service_id@, healthy),
            old(self).wf() && old(self)@.services.contains_key(service_id@) && (healthy
                ==> old(self)@.clients.contains_key(service_id@)) ==> final(self).wf(),
    {
        let ghost before = self@;
        let healthy = is_serving(status);
        insert_flag(&mut self.health_status, service_id.to_owned(), healthy);
        proof {
            assert(self@ =~= before.with_health(service_id@, healthy));
            if before.wf() && before.services.contains_key(service_id@) && (healthy
                ==> before.clients.contains_key(service_id@)) {
                law_health_keeps_wf(before, service_id@, healthy);
            }
        }
        healthy
    }

    /// A task was started that checks the health of a service. The task that it
    /// takes the place of is returned.
    pub fn schedule_health_check(&mut self, service_id: &str, handle: u64) -> (displaced: Option<
        u64,
    >)
        ensures
            final(self)@ == old(self)@.with_health_check(service_id@, handle),
            displaced == old(self)@.health_check_handles.get(service_id@),
            old(self).wf() && old(self)@.services.contains_key(service_id@) ==> final(self).wf(),
    {
        let ghost before = self@;
        let displaced = insert_handle(
            &mut self.health_check_handles,
            service_id.to_owned(),
            handle,
        );
        proof {
            assert(self@ =~= before.with_health_check(service_id@, handle));
            if before.wf() {
                law_health_checks_keep_wf(before, service_id@, handle);
            }
        }
        displaced
    }

    /// The health checks of all registered services start anew: the tasks that
    /// did them so far are to be cancelled, and new ones are to be started for
    /// the services that asked for checks.
    pub fn start_health_checks(&mut self) -> (plans: Vec<HealthCheckPlan>)
        ensures
            are_plans(old(self)@, plans@),
            final(self)@ == old(self)@.without_health_checks(),
            old(self).wf() ==> final(self).wf(),
    {
        let ghost before = self@;
        let listed = service_intervals(&self.services);
        let mut plans: Vec<HealthCheckPlan> = Vec::new();
        let mut i: usize = 0;
        while i < listed.len()
            invariant
                i <= listed@.len(),
                plans@.len() == i,
                self@ == (RouterView { health_check_handles: self@.health_check_handles, ..before }),
                forall|j: int|
                    0 <= j < listed@.len() ==> lists_interval(
                        before.services,
                        #[trigger] listed@[j],
                    ),
                forall|j: int, k: int|
                    0 <= j < k < listed@.len() ==> (#[trigger] listed@[j]).0@ != (
                    #[trigger] listed@[k]).0@,
                forall|j: int|
                    0 <= j < i ==> is_plan(before, #[trigger] plans@[j])
                        && plans@[j].service_id@ == listed@[j].0@,
                forall|id: Seq<char>| #[trigger]
                    self@.health_check_handles.contains_key(id) ==> before.health_check_handles.contains_key(id)
                        && before.health_check_handles[id] == self@.health_check_handles[id],
                forall|id: Seq<char>| #[trigger]
                    before.health_check_handles.contains_key(id)
                        && !self@.health_check_handles.contains_key(id) ==> exists|j: int|
                        0 <= j < i && (#[trigger] listed@[j]).0@ == id,
                forall|j: int|
                    0 <= j < i ==> !self@.health_check_handles.contains_key(
                        (#[trigger] listed@[j]).0@,
                    ),
            decreases listed@.len() - i,
        {
            let ghost handles = self@.health_check_handles;
            let service_id = listed[i].0.clone();
            let ghost id = service_id@;
            assert(lists_interval(before.services, listed@[i as int]));
            assert(handles.get(id) == before.health_check_handles.get(id)) by {
                if before.health_check_handles.contains_key(id) && !handles.contains_key(id) {
                    let j = choose|j: int| 0 <= j < i && (#[trigger] listed@[j]).0@ == id;
                    assert(listed@[j].0@ != listed@[i as int].0@);
                }
            }
            let cancel = remove_handle(&mut self.health_check_handles, service_id.as_str());
            let interval = positive_interval(listed[i].1);
            plans.push(HealthCheckPlan { service_id, cancel, check_interval: interval });
            assert(is_plan(before, plans@[i as int]));
            i = i + 1;
            assert(listed@[i - 1].0@ == id);
        }
        proof {
            assert forall|id: Seq<char>| #[trigger]
                before.services.contains_key(id) implies exists|j: int|
                0 <= j < plans@.len() && (#[trigger] plans@[j]).service_id@ == id by {
                let j = choose|j: int| 0 <= j < listed@.len() && (#[trigger] listed@[j]).0@ == id;
                assert(plans@[j].service_id@ == id);
            }
            assert(are_plans(before, plans@));
            assert(self@.health_check_handles =~= before.without_health_checks().health_check_handles)
                by {
                assert forall|id: Seq<char>|
                    self@.health_check_handles.contains_key(id)
                        <==> before.without_health_checks().health_check_handles.contains_key(id) by {
                    if before.services.contains_key(id) {
                        let j = choose|j: int|
                            0 <= j < listed@.len() && (#[trigger] listed@[j]).0@ == id;
                        assert(!self@.health_check_handles.contains_key(listed@[j].0@));
                    }
                    if before.health_check_handles.contains_key(id)
                        && !self@.health_check_handles.contains_key(id) {
                        let j = choose|j: int| 0 <= j < i && (#[trigger] listed@[j]).0@ == id;
                        assert(lists_interval(before.services, listed@[j]));
                    }
                }
            }
            assert(self@ =~= before.without_health_checks());
            if before.wf() {
                law_health_checks_keep_wf(before, Seq::empty(), 0);
            }
        }
        plans
    }

}

} // verus!
