//! What a call of each operation promises, spelled out over its arguments, its
//! result, and the tables before and after it.

use vstd::prelude::*;

use crate::gateway::{
    register_reply, Forwarding, GatewayServiceImpl, OpenedStream, StreamAction, StreamEvent,
};
use crate::laws::{law_failover, law_registered_service_is_reachable};
use crate::meaning::{
    law_connection_is_kept, law_every_field_is_kept, law_every_service_is_planned_for,
    law_form_of_stream_ids, law_health_checks_are_kept, law_health_is_kept, law_health_texts,
    law_interval_is_kept, law_named_target, law_nobody_is_healthy, law_other_strategies,
    law_refusal_texts, law_registration_adds_only_itself,
    law_registration_of_routes, law_registration_of_the_rest, law_reports, law_round_robin,
    law_two_in_a_row_differ, law_view_of_message, law_view_of_service,
};
use crate::metadata::{inspect_metadata, parsed_metadata, report, MetadataReport};
use crate::model::RouterView;
use crate::router::{
    choose_service, is_serving, pick_service, service_endpoint, Dispatch, Failure, HealthCheckPlan,
    HealthProbe, Registered, Registration, Router,
};
use crate::text::join;
use crate::types::{
    HealthCheckRequest, HealthCheckResponse, Message, MessageView, RegisterResponse,
    RoutingStrategy, ServiceInfo, Status,
};

verus! {

/// Texts are joined in order, with nothing between or around them.
pub proof fn law_of_join(before: &str, middle: &str, after: &str, joined: String)
    requires
        call_ensures(join, (before, middle, after), joined),
    ensures
        joined@.len() == before@.len() + middle@.len() + after@.len(),
        joined@.subrange(0, before@.len() as int) == before@,
        joined@.subrange(before@.len() as int, (before@.len() + middle@.len()) as int) == middle@,
        joined@.subrange((before@.len() + middle@.len()) as int, joined@.len() as int) == after@,
{
}

/// A service is reached at its address, over plain HTTP.
pub proof fn law_of_service_endpoint(info: &ServiceInfo, endpoint: String)
    requires
        call_ensures(service_endpoint, (info,), endpoint),
    ensures
        endpoint@ == "http://"@ + info.service_addr@,
{
    law_view_of_service(*info);
}

/// The service that is picked stands in the list: at the first place, at the
/// place whose turn it is, or at the place that chance gave.
pub proof fn law_of_pick_service(
    strategy: RoutingStrategy,
    healthy: &Vec<String>,
    turn: usize,
    draw: usize,
    picked_id: String,
)
    requires
        call_ensures(pick_service, (strategy, healthy, turn, draw), picked_id),
        turn < healthy@.len(),
        draw < healthy@.len(),
    ensures
        strategy == RoutingStrategy::FirstAvailable ==> picked_id@ == healthy@[0]@,
        strategy == RoutingStrategy::RoundRobin ==> picked_id@ == healthy@[turn as int]@,
        strategy == RoutingStrategy::Random ==> picked_id@ == healthy@[draw as int]@,
{
}

/// The service that is chosen stands in the list; without chance, at the first
/// place or at the place whose turn it is.
pub proof fn law_of_choose_service(
    strategy: RoutingStrategy,
    healthy: &Vec<String>,
    turn: usize,
    chosen: String,
)
    requires
        call_ensures(choose_service, (strategy, healthy, turn), chosen),
        turn < healthy@.len(),
    ensures
        strategy == RoutingStrategy::FirstAvailable ==> chosen@ == healthy@[0]@,
        strategy == RoutingStrategy::RoundRobin ==> chosen@ == healthy@[turn as int]@,
        exists|i: int| 0 <= i < healthy@.len() && chosen@ == (#[trigger] healthy@[i])@,
{
    let draw = choose|draw: int|
        0 <= draw < healthy@.len() && chosen@ == #[trigger] crate::model::picked(
            strategy,
            crate::types::texts(healthy@),
            turn as int,
            draw,
        );
    assert(chosen@ == healthy@[0]@ || chosen@ == healthy@[turn as int]@ || chosen@
        == healthy@[draw]@);
}

/// An answer means that a service is healthy where it is the number 1.
pub proof fn law_of_is_serving(status: Option<i32>, healthy: bool)
    requires
        call_ensures(is_serving, (status,), healthy),
    ensures
        healthy <==> status is Some && status->0 == 1,
{
}

/// A new router has no entries, and picks services in turn.
pub proof fn law_of_new_router(router: Router, key: Seq<char>)
    requires
        call_ensures(Router::new, (), router),
    ensures
        !router@.services.contains_key(key),
        !router@.cmd_routes.contains_key(key),
        !router@.clients.contains_key(key),
        !router@.health_status.contains_key(key),
        !router@.routing_strategy.contains_key(key),
        !router@.turns.contains_key(key),
        !router@.health_check_handles.contains_key(key),
        router@.default_strategy == RoutingStrategy::RoundRobin,
{
}

/// A registration makes the service known by what it says of itself. It puts the
/// service, and nobody else, into the lists of the commands that the service
/// names, behind all others, and takes nobody out. It gives the former health
/// check of the service up and hands its task out. It changes nothing else.
pub proof fn law_of_register_service(
    router: &mut Router,
    info: &ServiceInfo,
    start: Registration,
    cmd: Seq<char>,
    other: Seq<char>,
)
    requires
        call_ensures(Router::register_service, (router, info), start),
    ensures
        start.endpoint@ == "http://"@ + info.service_addr@,
        start.cancel == old(router)@.health_check_handles.get(info.service_id@),
        ({
            let id = info.service_id@;
            let before = old(router)@;
            let after = final(router)@;
            let names = exists|i: int|
                0 <= i < info.commands@.len() && (#[trigger] info.commands@[i])@ == cmd;
            &&& after.services.contains_key(id)
            &&& after.services[id].service_id == id
            &&& after.services[id].service_name == info.service_name@
            &&& after.services[id].service_addr == info.service_addr@
            &&& after.services[id].commands.len() == info.commands@.len()
            &&& forall|i: int|
                0 <= i < info.commands@.len() ==> #[trigger] after.services[id].commands[i]
                    == info.commands@[i]@
            &&& after.services[id].health_check_interval_sec == info.health_check_interval_sec
            &&& other != id ==> after.services.get(other) == before.services.get(other)
            &&& !after.health_check_handles.contains_key(id)
            &&& other != id ==> after.health_check_handles.get(other)
                == before.health_check_handles.get(other)
            &&& after.clients == before.clients
            &&& after.health_status == before.health_status
            &&& after.routing_strategy == before.routing_strategy
            &&& after.default_strategy == before.default_strategy
            &&& after.turns == before.turns
            &&& !names ==> after.cmd_routes.get(cmd) == before.cmd_routes.get(cmd)
            &&& names ==> {
                &&& after.cmd_routes.contains_key(cmd)
                &&& !before.cmd_routes.contains_key(cmd) ==> after.cmd_routes[cmd] == seq![id]
                &&& before.cmd_routes.contains_key(cmd) && before.cmd_routes[cmd].contains(id)
                    ==> after.cmd_routes[cmd] == before.cmd_routes[cmd]
                &&& before.cmd_routes.contains_key(cmd) && !before.cmd_routes[cmd].contains(id)
                    ==> after.cmd_routes[cmd] == before.cmd_routes[cmd].push(id)
            }
            &&& (after.cmd_routes.contains_key(cmd) && after.cmd_routes[cmd].contains(other)) <==> (
            (before.cmd_routes.contains_key(cmd) && before.cmd_routes[cmd].contains(other)) || (
            other == id && names))
        }),
{
    law_view_of_service(*info);
    let before = old(router)@;
    law_registration_of_routes(before, info@, cmd);
    law_registration_adds_only_itself(before, info@, cmd, other);
    law_registration_of_the_rest(before, info@, other);
    lemma_names(*info, cmd);
}

/// A service names a command where it is one of the texts of its list.
proof fn lemma_names(info: ServiceInfo, cmd: Seq<char>)
    ensures
        info@.commands.contains(cmd) <==> exists|i: int|
            0 <= i < info.commands@.len() && (#[trigger] info.commands@[i])@ == cmd,
{
    law_view_of_service(info);
    if info@.commands.contains(cmd) {
        let i = choose|i: int| 0 <= i < info@.commands.len() && info@.commands[i] == cmd;
        assert(info.commands@[i]@ == cmd);
    }
    if exists|i: int| 0 <= i < info.commands@.len() && (#[trigger] info.commands@[i])@ == cmd {
        let i = choose|i: int| 0 <= i < info.commands@.len() && (#[trigger] info.commands@[i])@
            == cmd;
        assert(info@.commands[i] == cmd);
    }
}

/// A registration that ends with a connection keeps it, makes the service
/// healthy, and asks for health checks at the very interval that the service
/// gave where that is positive, and for none where it is not. One that ends
/// without a connection changes nothing and asks for nothing.
pub proof fn law_of_complete_registration(
    router: &mut Router,
    info: &ServiceInfo,
    connection: Result<u64, String>,
    done: Registered,
    other: Seq<char>,
)
    requires
        call_ensures(Router::complete_registration, (router, info, connection), done),
    ensures
        ({
            let id = info.service_id@;
            let before = old(router)@;
            let after = final(router)@;
            &&& connection matches Ok(client) ==> {
                &&& done.response.success
                &&& done.response.message@ == "Service "@ + info.service_name@
                    + " registered successfully"@
                &&& done.replaced == before.clients.get(id)
                &&& info.health_check_interval_sec > 0 ==> done.check_interval is Some
                    && done.check_interval->0 as int == info.health_check_interval_sec as int
                &&& info.health_check_interval_sec <= 0 ==> done.check_interval is None
                &&& after.clients.contains_key(id) && after.clients[id] == client
                &&& after.health_status.contains_key(id) && after.health_status[id]
                &&& other != id ==> after.clients.get(other) == before.clients.get(other)
                &&& other != id ==> after.health_status.get(other) == before.health_status.get(
                    other,
                )
                &&& after.services == before.services
                &&& after.cmd_routes == before.cmd_routes
                &&& after.routing_strategy == before.routing_strategy
                &&& after.default_strategy == before.default_strategy
                &&& after.turns == before.turns
                &&& after.health_check_handles == before.health_check_handles
            }
            &&& connection matches Err(error) ==> {
                &&& !done.response.success
                &&& done.response.message@ == "Failed to connect to service: "@ + error@
                &&& done.replaced is None
                &&& done.check_interval is None
                &&& after == before
            }
        }),
{
    law_view_of_service(*info);
    law_interval_is_kept(info.health_check_interval_sec);
    if let Ok(client) = connection {
        law_connection_is_kept(old(router)@, info@.service_id, client, other);
    }
}

/// A new connection to a service is kept, and the former one handed out, and
/// nothing else changes. Without one nothing changes.
pub proof fn law_of_complete_reconnect(
    router: &mut Router,
    service_id: &str,
    connection: Result<u64, String>,
    done: Result<Option<u64>, String>,
    other: Seq<char>,
)
    requires
        call_ensures(Router::complete_reconnect, (router, service_id, connection), done),
    ensures
        ({
            let before = old(router)@;
            let after = final(router)@;
            &&& connection matches Ok(client) ==> {
                &&& done is Ok && done->Ok_0 == before.clients.get(service_id@)
                &&& after.clients.contains_key(service_id@)
                &&& after.clients[service_id@] == client
                &&& other != service_id@ ==> after.clients.get(other) == before.clients.get(other)
                &&& after.services == before.services
                &&& after.cmd_routes == before.cmd_routes
                &&& after.health_status == before.health_status
                &&& after.routing_strategy == before.routing_strategy
                &&& after.default_strategy == before.default_strategy
                &&& after.turns == before.turns
                &&& after.health_check_handles == before.health_check_handles
            }
            &&& connection matches Err(error) ==> {
                &&& done is Err && done->Err_0@ == "Failed to reconnect: "@ + error@
                &&& after == before
            }
        }),
{
    if let Ok(client) = connection {
        law_connection_is_kept(old(router)@, service_id@, client, other);
    }
}

/// A service is healthy where its flag is there and set, and registered where it
/// has an entry.
pub proof fn law_of_questions(
    router: &Router,
    service_id: &str,
    healthy: bool,
    registered: bool,
)
    requires
        call_ensures(Router::is_healthy, (router, service_id), healthy),
        call_ensures(Router::is_registered, (router, service_id), registered),
    ensures
        healthy <==> router@.health_status.contains_key(service_id@)
            && router@.health_status[service_id@],
        registered <==> router@.services.contains_key(service_id@),
{
}

/// Where a message goes that names a target, or for which there is no healthy
/// service; nothing changes.
pub proof fn law_of_determine_route(router: &mut Router, msg: &Message, route: Option<String>)
    requires
        call_ensures(Router::determine_route, (router, msg), route),
    ensures
        ({
            let before = old(router)@;
            let listed = before.cmd_routes.contains_key(msg.cmd@)
                && before.cmd_routes[msg.cmd@].len() > 0;
            let nobody = forall|i: int|
                0 <= i < before.cmd_routes[msg.cmd@].len() ==> !(before.health_status.contains_key(
                    #[trigger] before.cmd_routes[msg.cmd@][i],
                ) && before.health_status[before.cmd_routes[msg.cmd@][i]]);
            &&& msg.target_service@.len() > 0 ==> {
                &&& route is Some && route->0@ == msg.target_service@
                &&& final(router)@ == before
            }
            &&& msg.target_service@.len() == 0 && !listed ==> {
                &&& route is None
                &&& final(router)@ == before
            }
            &&& msg.target_service@.len() == 0 && listed && nobody ==> {
                &&& route is Some && route->0@ == before.cmd_routes[msg.cmd@][0]
                &&& final(router)@ == before
            }
        }),
{
    law_view_of_message(*msg);
    let before = old(router)@;
    let draw = choose|draw: int| #[trigger]
        before.can_draw(msg@.cmd, draw) && crate::types::text_of(route) == before.route(msg@, draw);
    if msg@.target_service.len() > 0 {
        law_named_target(before, msg@, draw);
    } else {
        let nobody = forall|i: int|
            0 <= i < before.cmd_routes[msg.cmd@].len() ==> !(before.health_status.contains_key(
                #[trigger] before.cmd_routes[msg.cmd@][i],
            ) && before.health_status[before.cmd_routes[msg.cmd@][i]]);
        if !before.cmd_routes.contains_key(msg.cmd@) || nobody {
            law_nobody_is_healthy(before, msg@, draw);
        }
    }
}

/// Where a message goes that names no target, where there are healthy services:
/// to the one whose turn it is, counted round from what is kept for the command,
/// or from 0 where nothing is kept; or to the first; or to any of them. Where
/// services are picked in turn, the next turn is that of the one behind, and
/// else nothing changes.
pub proof fn law_of_determine_route_among_healthy(
    router: &mut Router,
    msg: &Message,
    route: Option<String>,
    strategy: RoutingStrategy,
)
    requires
        call_ensures(Router::determine_route, (router, msg), route),
        msg.target_service@.len() == 0,
        old(router)@.cmd_routes.contains_key(msg.cmd@),
        0 < old(router)@.cmd_routes[msg.cmd@].filter(
            |id: Seq<char>|
                old(router)@.health_status.contains_key(id) && old(router)@.health_status[id],
        ).len() <= u64::MAX,
        old(router)@.routing_strategy.contains_key(msg.cmd@)
            ==> old(router)@.routing_strategy[msg.cmd@] == strategy,
        !old(router)@.routing_strategy.contains_key(msg.cmd@) ==> old(router)@.default_strategy
            == strategy,
    ensures
        route is Some,
        ({
            let before = old(router)@;
            let after = final(router)@;
            let healthy = before.cmd_routes[msg.cmd@].filter(
                |id: Seq<char>|
                    old(router)@.health_status.contains_key(id) && old(router)@.health_status[id],
            );
            let len = healthy.len() as int;
            let kept: int = if before.turns.contains_key(msg.cmd@) {
                before.turns[msg.cmd@] as int
            } else {
                0
            };
            &&& strategy == RoutingStrategy::RoundRobin ==> {
                &&& route->0@ == healthy[kept % len]
                &&& after.turns == before.turns.insert(msg.cmd@, ((kept % len + 1) % len) as u64)
                &&& after.services == before.services
                &&& after.cmd_routes == before.cmd_routes
                &&& after.clients == before.clients
                &&& after.health_status == before.health_status
                &&& after.routing_strategy == before.routing_strategy
                &&& after.default_strategy == before.default_strategy
                &&& after.health_check_handles == before.health_check_handles
            }
            &&& strategy == RoutingStrategy::FirstAvailable ==> {
                &&& route->0@ == healthy[0]
                &&& after == before
            }
            &&& strategy == RoutingStrategy::Random ==> {
                &&& healthy.contains(route->0@)
                &&& after == before
            }
        }),
{
    law_view_of_message(*msg);
    let before = old(router)@;
    let after = final(router)@;
    let test = |id: Seq<char>|
        old(router)@.health_status.contains_key(id) && old(router)@.health_status[id];
    assert(test =~= (|id: Seq<char>|
        before.health_status.contains_key(id) && before.health_status[id]));
    let healthy = before.cmd_routes[msg.cmd@].filter(test);
    let draw = choose|draw: int| #[trigger]
        before.can_draw(msg@.cmd, draw) && crate::types::text_of(route) == before.route(msg@, draw);
    crate::meaning::law_candidates_are_the_list(before, msg@.cmd);
    if strategy == RoutingStrategy::RoundRobin {
        law_round_robin(before, msg@, draw);
        let len = healthy.len() as int;
        let kept: int = if before.turns.contains_key(msg.cmd@) {
            before.turns[msg.cmd@] as int
        } else {
            0
        };
        let next = ((kept % len + 1) % len) as u64;
        assert forall|cmd: Seq<char>| #[trigger]
            after.turns.contains_key(cmd) <==> before.turns.insert(msg.cmd@, next).contains_key(
                cmd,
            ) by {
            assert(cmd != msg@.cmd ==> after.turns.get(cmd) == before.turns.get(cmd));
        }
        assert forall|cmd: Seq<char>| #[trigger] after.turns.contains_key(cmd) implies after.turns[cmd]
            == before.turns.insert(msg.cmd@, next)[cmd] by {
            assert(cmd != msg@.cmd ==> after.turns.get(cmd) == before.turns.get(cmd));
        }
        assert(after.turns =~= before.turns.insert(msg.cmd@, next));
    } else {
        law_other_strategies(before, msg@, draw, strategy);
        assert(healthy.contains(healthy[draw]));
    }
}

/// Two messages in a row with one command go to different services, where there
/// are at least two healthy ones, in a list without duplicates, and they are
/// picked in turn.
pub proof fn law_of_two_routes_in_a_row(
    router: &mut Router,
    msg: &Message,
    route: Option<String>,
    router_then: &mut Router,
    next: &Message,
    next_route: Option<String>,
)
    requires
        call_ensures(Router::determine_route, (router, msg), route),
        call_ensures(Router::determine_route, (router_then, next), next_route),
        old(router_then)@ == final(router)@,
        next.cmd@ == msg.cmd@,
        msg.target_service@.len() == 0,
        next.target_service@.len() == 0,
        old(router)@.cmd_routes.contains_key(msg.cmd@),
        old(router)@.cmd_routes[msg.cmd@].no_duplicates(),
        2 <= old(router)@.cmd_routes[msg.cmd@].filter(
            |id: Seq<char>|
                old(router)@.health_status.contains_key(id) && old(router)@.health_status[id],
        ).len() <= u64::MAX,
        old(router)@.routing_strategy.contains_key(msg.cmd@)
            ==> old(router)@.routing_strategy[msg.cmd@] == RoutingStrategy::RoundRobin,
        !old(router)@.routing_strategy.contains_key(msg.cmd@) ==> old(router)@.default_strategy
            == RoutingStrategy::RoundRobin,
    ensures
        route is Some,
        next_route is Some,
        route->0@ != next_route->0@,
{
    law_view_of_message(*msg);
    law_view_of_message(*next);
    let before = old(router)@;
    let then = old(router_then)@;
    assert((|id: Seq<char>|
        old(router)@.health_status.contains_key(id) && old(router)@.health_status[id]) =~= (
    |id: Seq<char>| before.health_status.contains_key(id) && before.health_status[id]));
    let draw = choose|draw: int| #[trigger]
        before.can_draw(msg@.cmd, draw) && crate::types::text_of(route) == before.route(msg@, draw);
    let next_draw = choose|draw: int| #[trigger]
        then.can_draw(next@.cmd, draw) && crate::types::text_of(next_route) == then.route(
            next@,
            draw,
        );
    law_two_in_a_row_differ(before, msg@, next@, draw, next_draw);
}

/// A message that is sent has every field of the one that came but for the
/// target, which is its route; it is sent on the connection to that service.
/// Without a route, or without a connection, it is refused, with a number and a
/// text for each.
pub proof fn law_of_dispatch(
    router: &Router,
    msg: Message,
    route: Option<String>,
    dispatch: Result<Dispatch, Status>,
)
    requires
        call_ensures(Router::dispatch, (router, msg, route), dispatch),
    ensures
        route is None ==> dispatch is Err && dispatch->Err_0.code == 5
            && dispatch->Err_0.message@ == "No service found for the given command"@,
        route is Some && !router@.clients.contains_key(route->0@) ==> dispatch is Err
            && dispatch->Err_0.code == 14 && dispatch->Err_0.message@
            == "Service connection not available"@,
        route is Some && router@.clients.contains_key(route->0@) ==> {
            &&& dispatch is Ok
            &&& dispatch->Ok_0.client == router@.clients[route->0@]
            &&& dispatch->Ok_0.message.target_service@ == route->0@
            &&& dispatch->Ok_0.message.source_service@ == msg.source_service@
            &&& dispatch->Ok_0.message.cmd@ == msg.cmd@
            &&& dispatch->Ok_0.message.user_id@ == msg.user_id@
            &&& dispatch->Ok_0.message.metadata@ == msg.metadata@
            &&& dispatch->Ok_0.message.extra@ == msg.extra@
            &&& dispatch->Ok_0.known_unhealthy <==> (router@.health_status.contains_key(route->0@)
                && !router@.health_status[route->0@])
        },
{
    law_view_of_message(msg);
    if route is Some {
        law_refusal_texts(router@, msg@, route->0@);
        if router@.clients.contains_key(route->0@) {
            law_every_field_is_kept(router@, msg@, route->0@);
            law_view_of_message(dispatch->Ok_0.message);
        }
    } else {
        law_refusal_texts(router@, msg@, Seq::empty());
    }
}

/// What forwarding a message does to the tables, and which service it goes to:
/// `target` is the service that it is sent to, where it is sent. A message that
/// names a target goes there. One that does not goes to the healthy service
/// whose turn it is, where services are picked in turn, and the turn passes on;
/// to the first healthy one, where the first one is picked; and where none is
/// healthy, to the first of the list. It is sent exactly where there is a
/// connection to that service. Nothing else changes.
spec fn forwards(
    before: RouterView,
    after: RouterView,
    named: Seq<char>,
    cmd: Seq<char>,
    target: Option<Seq<char>>,
) -> bool {
    let healthy = before.cmd_routes[cmd].filter(
        |id: Seq<char>| before.health_status.contains_key(id) && before.health_status[id],
    );
    let len = healthy.len() as int;
    let kept: int = if before.turns.contains_key(cmd) {
        before.turns[cmd] as int
    } else {
        0
    };
    let strategy = if before.routing_strategy.contains_key(cmd) {
        before.routing_strategy[cmd]
    } else {
        before.default_strategy
    };
    let listed = before.cmd_routes.contains_key(cmd);
    &&& after.services == before.services
    &&& after.cmd_routes == before.cmd_routes
    &&& after.clients == before.clients
    &&& after.health_status == before.health_status
    &&& after.routing_strategy == before.routing_strategy
    &&& after.default_strategy == before.default_strategy
    &&& after.health_check_handles == before.health_check_handles
    &&& named.len() > 0 ==> {
        &&& after.turns == before.turns
        &&& target is Some <==> before.clients.contains_key(named)
        &&& target is Some ==> target->0 == named
    }
    &&& named.len() == 0 && !listed ==> after.turns == before.turns && target is None
    &&& named.len() == 0 && listed && len == 0 ==> {
        &&& after.turns == before.turns
        &&& target is Some <==> before.cmd_routes[cmd].len() > 0 && before.clients.contains_key(
            before.cmd_routes[cmd][0],
        )
        &&& target is Some ==> target->0 == before.cmd_routes[cmd][0]
    }
    &&& named.len() == 0 && listed && 0 < len <= u64::MAX ==> match strategy {
        RoutingStrategy::RoundRobin => {
            &&& target is Some <==> before.clients.contains_key(healthy[kept % len])
            &&& target is Some ==> target->0 == healthy[kept % len]
            &&& after.turns.contains_key(cmd)
            &&& after.turns[cmd] as int == (kept % len + 1) % len
            &&& forall|other: Seq<char>|
                other != cmd ==> #[trigger] after.turns.get(other) == before.turns.get(other)
        },
        RoutingStrategy::FirstAvailable => {
            &&& after.turns == before.turns
            &&& target is Some <==> before.clients.contains_key(healthy[0])
            &&& target is Some ==> target->0 == healthy[0]
        },
        RoutingStrategy::Random => {
            &&& after.turns == before.turns
            &&& target is Some ==> healthy.contains(target->0)
            &&& target is None ==> exists|i: int|
                0 <= i < len && !before.clients.contains_key(#[trigger] healthy[i])
        },
    }
}

/// Routing forwards.
proof fn lemma_route_forwards(router: RouterView, msg: MessageView, draw: int)
    requires
        router.can_draw(msg.cmd, draw),
    ensures
        forwards(
            router,
            router.after_route(msg),
            msg.target_service,
            msg.cmd,
            if router.route(msg, draw) is Some && router.clients.contains_key(
                router.route(msg, draw)->0,
            ) {
                router.route(msg, draw)
            } else {
                None
            },
        ),
{
    let test = |id: Seq<char>| router.health_status.contains_key(id) && router.health_status[id];
    let healthy = router.cmd_routes[msg.cmd].filter(test);
    crate::meaning::law_candidates_are_the_list(router, msg.cmd);
    let strategy = if router.routing_strategy.contains_key(msg.cmd) {
        router.routing_strategy[msg.cmd]
    } else {
        router.default_strategy
    };
    if msg.target_service.len() > 0 {
        law_named_target(router, msg, draw);
    } else if router.cmd_routes.contains_key(msg.cmd) && healthy.len() > 0 {
        if strategy == RoutingStrategy::RoundRobin {
            law_round_robin(router, msg, draw);
        } else {
            law_other_strategies(router, msg, draw, strategy);
            assert(healthy.contains(healthy[draw]));
        }
    } else {
        assert(router.after_route(msg) == router);
    }
}

/// A message that is forwarded is refused, or it is sent with every field but
/// its target as it came, on the connection to the service that is its target
/// now; and that is the target that it named, or a service of the list of its
/// command.
pub proof fn law_of_forward_message(
    router: &mut Router,
    msg: Message,
    dispatch: Result<Dispatch, Status>,
)
    requires
        call_ensures(Router::forward_message, (router, msg), dispatch),
    ensures
        ({
            let before = old(router)@;
            let after = final(router)@;
            let named = msg.target_service@;
            let cmd = msg.cmd@;
            let target = match dispatch {
                Ok(sent) => Some(sent.message.target_service@),
                Err(status) => None::<Seq<char>>,
            };
            let healthy = before.cmd_routes[cmd].filter(
                |id: Seq<char>| before.health_status.contains_key(id) && before.health_status[id],
            );
            let len = healthy.len() as int;
            let kept: int = if before.turns.contains_key(cmd) {
                before.turns[cmd] as int
            } else {
                0
            };
            let strategy = if before.routing_strategy.contains_key(cmd) {
                before.routing_strategy[cmd]
            } else {
                before.default_strategy
            };
            let listed = before.cmd_routes.contains_key(cmd);
            &&& after.services == before.services
            &&& after.cmd_routes == before.cmd_routes
            &&& after.clients == before.clients
            &&& after.health_status == before.health_status
            &&& after.routing_strategy == before.routing_strategy
            &&& after.default_strategy == before.default_strategy
            &&& after.health_check_handles == before.health_check_handles
            &&& named.len() > 0 ==> {
                &&& after.turns == before.turns
                &&& target is Some <==> before.clients.contains_key(named)
                &&& target is Some ==> target->0 == named
            }
            &&& named.len() == 0 && !listed ==> after.turns == before.turns && target is None
            &&& named.len() == 0 && listed && len == 0 ==> {
                &&& after.turns == before.turns
                &&& target is Some <==> before.cmd_routes[cmd].len() > 0 && before.clients.contains_key(
                    before.cmd_routes[cmd][0],
                )
                &&& target is Some ==> target->0 == before.cmd_routes[cmd][0]
            }
            &&& named.len() == 0 && listed && 0 < len <= u64::MAX ==> match strategy {
                RoutingStrategy::RoundRobin => {
                    &&& target is Some <==> before.clients.contains_key(healthy[kept % len])
                    &&& target is Some ==> target->0 == healthy[kept % len]
                    &&& after.turns.contains_key(cmd)
                    &&& after.turns[cmd] as int == (kept % len + 1) % len
                    &&& forall|other: Seq<char>|
                        other != cmd ==> #[trigger] after.turns.get(other) == before.turns.get(other)
                },
                RoutingStrategy::FirstAvailable => {
                    &&& after.turns == before.turns
                    &&& target is Some <==> before.clients.contains_key(healthy[0])
                    &&& target is Some ==> target->0 == healthy[0]
                },
                RoutingStrategy::Random => {
                    &&& after.turns == before.turns
                    &&& target is Some ==> healthy.contains(target->0)
                    &&& target is None ==> exists|i: int|
                        0 <= i < len && !before.clients.contains_key(#[trigger] healthy[i])
                },
            }
        }),
        dispatch matches Err(status) ==> status.code == 5 || status.code == 14,
        (dispatch is Err && dispatch->Err_0.code == 5) <==> (msg.target_service@.len() == 0 && !(
        old(router)@.cmd_routes.contains_key(msg.cmd@) && old(router)@.cmd_routes[msg.cmd@].len()
            > 0)),
        msg.target_service@.len() > 0 ==> (dispatch is Ok
            <==> old(router)@.clients.contains_key(msg.target_service@)),
        dispatch matches Ok(sent) ==> {
            let target = sent.message.target_service@;
            &&& old(router)@.clients.contains_key(target)
            &&& sent.client == old(router)@.clients[target]
            &&& sent.message.source_service@ == msg.source_service@
            &&& sent.message.cmd@ == msg.cmd@
            &&& sent.message.user_id@ == msg.user_id@
            &&& sent.message.metadata@ == msg.metadata@
            &&& sent.message.extra@ == msg.extra@
            &&& sent.known_unhealthy <==> (old(router)@.health_status.contains_key(target)
                && !old(router)@.health_status[target])
            &&& msg.target_service@.len() > 0 ==> target == msg.target_service@
            &&& msg.target_service@.len() == 0 ==> old(router)@.cmd_routes.contains_key(msg.cmd@)
                && old(router)@.cmd_routes[msg.cmd@].contains(target)
        },
{
    let before = old(router)@;
    let draw = choose|draw: int| #[trigger]
        before.can_draw(msg@.cmd, draw) && crate::router::dispatch_of(dispatch)
            == before.dispatched(msg@, before.route(msg@, draw));
    law_view_of_message(msg);
    let route = before.route(msg@, draw);
    lemma_route_forwards(before, msg@, draw);
    if msg@.target_service.len() == 0 {
        crate::laws::law_route_follows_health(before, msg@, draw);
    }
    crate::meaning::law_table_entries(before.cmd_routes, before.services, msg@.cmd, arbitrary());
    if route is Some {
        law_refusal_texts(before, msg@, route->0);
        if before.clients.contains_key(route->0) {
            law_every_field_is_kept(before, msg@, route->0);
            law_view_of_message(dispatch->Ok_0.message);
        }
    } else {
        law_refusal_texts(before, msg@, Seq::empty());
    }
}

/// An answer is handed on as it is, and a failure with the status that came. A
/// service that cannot be reached is not healthy from then on; nothing else
/// changes, and after any other outcome nothing at all.
pub proof fn law_of_complete_forward<R, S>(
    router: &mut Router,
    target_service: &str,
    reply: Result<R, Failure<S>>,
    relayed: Result<R, S>,
    other: Seq<char>,
)
    requires
        call_ensures(Router::complete_forward::<R, S>, (router, target_service, reply), relayed),
    ensures
        ({
            let before = old(router)@;
            let after = final(router)@;
            &&& reply is Ok ==> relayed is Ok && relayed->Ok_0 == reply->Ok_0 && after == before
            &&& reply is Err ==> relayed is Err && relayed->Err_0 == reply->Err_0.status
            &&& reply is Err && reply->Err_0.code != 14 ==> after == before
            &&& reply is Err && reply->Err_0.code == 14 ==> {
                &&& after.health_status.contains_key(target_service@)
                &&& !after.health_status[target_service@]
                &&& other != target_service@ ==> after.health_status.get(other)
                    == before.health_status.get(other)
                &&& after.services == before.services
                &&& after.cmd_routes == before.cmd_routes
                &&& after.clients == before.clients
                &&& after.routing_strategy == before.routing_strategy
                &&& after.default_strategy == before.default_strategy
                &&& after.turns == before.turns
                &&& after.health_check_handles == before.health_check_handles
            }
        }),
{
    law_health_is_kept(old(router)@, target_service@, false, other);
}

/// A service is asked for its health over the connection to it, by its own id,
/// where there is a connection, and only there.
pub proof fn law_of_check_service_health(
    router: &Router,
    service_id: &str,
    probe: Option<HealthProbe>,
)
    requires
        call_ensures(Router::check_service_health, (router, service_id), probe),
    ensures
        probe is Some <==> router@.clients.contains_key(service_id@),
        probe is Some ==> probe->0.client == router@.clients[service_id@]
            && probe->0.request.service_id@ == service_id@,
{
}

/// The outcome of a health check is kept: healthy where the answer was the
/// number 1, and else not. Nothing else changes.
pub proof fn law_of_complete_health_check(
    router: &mut Router,
    service_id: &str,
    status: Option<i32>,
    healthy: bool,
    other: Seq<char>,
)
    requires
        call_ensures(Router::complete_health_check, (router, service_id, status), healthy),
    ensures
        healthy <==> status is Some && status->0 == 1,
        ({
            let before = old(router)@;
            let after = final(router)@;
            &&& after.health_status.contains_key(service_id@)
            &&& after.health_status[service_id@] <==> status is Some && status->0 == 1
            &&& other != service_id@ ==> after.health_status.get(other)
                == before.health_status.get(other)
            &&& after.services == before.services
            &&& after.cmd_routes == before.cmd_routes
            &&& after.clients == before.clients
            &&& after.routing_strategy == before.routing_strategy
            &&& after.default_strategy == before.default_strategy
            &&& after.turns == before.turns
            &&& after.health_check_handles == before.health_check_handles
        }),
{
    law_health_is_kept(old(router)@, service_id@, healthy, other);
}

/// The task that checks the health of a service is kept, and the one that it
/// takes the place of is handed out. Nothing else changes.
pub proof fn law_of_schedule_health_check(
    router: &mut Router,
    service_id: &str,
    handle: u64,
    displaced: Option<u64>,
    other: Seq<char>,
)
    requires
        call_ensures(Router::schedule_health_check, (router, service_id, handle), displaced),
    ensures
        ({
            let before = old(router)@;
            let after = final(router)@;
            &&& displaced == before.health_check_handles.get(service_id@)
            &&& after.health_check_handles.contains_key(service_id@)
            &&& after.health_check_handles[service_id@] == handle
            &&& other != service_id@ ==> after.health_check_handles.get(other)
                == before.health_check_handles.get(other)
            &&& after.services == before.services
            &&& after.cmd_routes == before.cmd_routes
            &&& after.clients == before.clients
            &&& after.health_status == before.health_status
            &&& after.routing_strategy == before.routing_strategy
            &&& after.default_strategy == before.default_strategy
            &&& after.turns == before.turns
        }),
{
    law_health_checks_are_kept(old(router)@, service_id@, handle, other);
}

/// When health checks start anew, each registered service, whatever its health
/// and with or without a connection, has one plan, and nobody else has one. The
/// plan cancels the task that checked the service, and starts a new one at the
/// very interval that the service registered with exactly where that is
/// positive. The tasks of registered services are given up, and nothing else
/// changes.
pub proof fn law_of_start_health_checks(
    router: &mut Router,
    plans: Vec<HealthCheckPlan>,
    id: Seq<char>,
)
    requires
        call_ensures(Router::start_health_checks, (router,), plans),
    ensures
        old(router)@.services.contains_key(id) <==> exists|i: int|
            0 <= i < plans@.len() && (#[trigger] plans@[i]).service_id@ == id,
        forall|i: int, j: int|
            0 <= i < j < plans@.len() ==> (#[trigger] plans@[i]).service_id@ != (
            #[trigger] plans@[j]).service_id@,
        forall|i: int|
            0 <= i < plans@.len() && (#[trigger] plans@[i]).service_id@ == id ==> {
                let interval = old(router)@.services[id].health_check_interval_sec;
                &&& interval > 0 ==> plans@[i].check_interval is Some && plans@[i].check_interval->0
                    as int == interval as int
                &&& interval <= 0 ==> plans@[i].check_interval is None
                &&& plans@[i].cancel == old(router)@.health_check_handles.get(id)
            },
        ({
            let before = old(router)@;
            let after = final(router)@;
            &&& before.services.contains_key(id) ==> !after.health_check_handles.contains_key(id)
            &&& !before.services.contains_key(id) ==> after.health_check_handles.get(id)
                == before.health_check_handles.get(id)
            &&& after.services == before.services
            &&& after.cmd_routes == before.cmd_routes
            &&& after.clients == before.clients
            &&& after.health_status == before.health_status
            &&& after.routing_strategy == before.routing_strategy
            &&& after.default_strategy == before.default_strategy
            &&& after.turns == before.turns
        }),
{
    law_every_service_is_planned_for(old(router)@, plans@, id);
    law_health_checks_are_kept(old(router)@, id, 0, id);
}

/// Once a service registered and the connection to it was made, a message with
/// one of its commands and no target is sent, to a service that is not known to
/// be unhealthy.
pub proof fn law_registered_then_forwarded(
    router: &mut Router,
    info: &ServiceInfo,
    start: Registration,
    router_then: &mut Router,
    client: u64,
    done: Registered,
    router_last: &mut Router,
    msg: Message,
    dispatch: Result<Dispatch, Status>,
    i: int,
)
    requires
        old(router).wf(),
        call_ensures(Router::register_service, (router, info), start),
        old(router_then)@ == final(router)@,
        call_ensures(
            Router::complete_registration,
            (router_then, info, Ok::<u64, String>(client)),
            done,
        ),
        old(router_last)@ == final(router_then)@,
        call_ensures(Router::forward_message, (router_last, msg), dispatch),
        0 <= i < info.commands@.len(),
        msg.cmd@ == info.commands@[i]@,
        msg.target_service@.len() == 0,
    ensures
        dispatch is Ok,
        !dispatch->Ok_0.known_unhealthy,
        old(router_last)@.cmd_routes[msg.cmd@].contains(dispatch->Ok_0.message.target_service@),
{
    law_view_of_service(*info);
    law_view_of_message(msg);
    lemma_names(*info, msg.cmd@);
    let last = old(router_last)@;
    let draw = choose|draw: int| #[trigger]
        last.can_draw(msg@.cmd, draw) && crate::router::dispatch_of(dispatch) == last.dispatched(
            msg@,
            last.route(msg@, draw),
        );
    law_registered_service_is_reachable(old(router)@, info@, client, msg@, draw);
}

/// After a service could not be reached, a message without a target goes to
/// another one, as long as a service of the list of its command is healthy.
pub proof fn law_failed_then_routed<R, S>(
    router: &mut Router,
    failed: &str,
    status: S,
    relayed: Result<R, S>,
    router_then: &mut Router,
    msg: &Message,
    route: Option<String>,
    other: Seq<char>,
)
    requires
        call_ensures(
            Router::complete_forward::<R, S>,
            (router, failed, Err::<R, Failure<S>>(Failure { code: 14, status })),
            relayed,
        ),
        old(router_then)@ == final(router)@,
        call_ensures(Router::determine_route, (router_then, msg), route),
        msg.target_service@.len() == 0,
        other != failed@,
        old(router)@.cmd_routes.contains_key(msg.cmd@),
        old(router)@.cmd_routes[msg.cmd@].contains(other),
        old(router)@.health_status.contains_key(other),
        old(router)@.health_status[other],
    ensures
        route is Some,
        route->0@ != failed@,
        old(router)@.health_status.contains_key(route->0@),
        old(router)@.health_status[route->0@],
{
    law_view_of_message(*msg);
    let then = old(router_then)@;
    let draw = choose|draw: int| #[trigger]
        then.can_draw(msg@.cmd, draw) && crate::types::text_of(route) == then.route(msg@, draw);
    law_failover(old(router)@, failed@, other, msg@, draw);
    law_health_is_kept(old(router)@, failed@, false, route->0@);
    assert(then.health_status.get(route->0@) == old(router)@.health_status.get(route->0@));
}

/// Metadata that is parsed is reported as it was parsed.
pub proof fn law_of_report(
    parsed: Result<Vec<(String, String)>, String>,
    reported: MetadataReport,
)
    requires
        call_ensures(report, (parsed,), reported),
    ensures
        parsed matches Ok(entries) ==> reported == MetadataReport::Parsed(entries),
        parsed matches Err(message) ==> reported == MetadataReport::Malformed(message),
{
}

/// Metadata is absent exactly where the text is empty, and else it is reported
/// as parsed, with each member once, or with the message of the error.
pub proof fn law_of_inspect_metadata(text: &str, found: MetadataReport)
    requires
        call_ensures(inspect_metadata, (text,), found),
    ensures
        found is Absent <==> text@.len() == 0,
        text@.len() > 0 ==> (found is Parsed <==> parsed_metadata(text@) is Ok),
        found matches MetadataReport::Malformed(message) ==> message@
            == parsed_metadata(text@)->Err_0,
        found matches MetadataReport::Parsed(entries) ==> {
            let members = parsed_metadata(text@)->Ok_0;
            &&& forall|i: int|
                0 <= i < entries@.len() ==> members.contains_key((#[trigger] entries@[i]).0@)
                    && members[entries@[i].0@] == entries@[i].1@
            &&& forall|i: int, j: int|
                0 <= i < j < entries@.len() ==> (#[trigger] entries@[i]).0@ != (
                #[trigger] entries@[j]).0@
            &&& forall|key: Seq<char>| #[trigger]
                members.contains_key(key) ==> exists|i: int|
                    0 <= i < entries@.len() && (#[trigger] entries@[i]).0@ == key
        },
{
    law_reports(found, text@);
}

/// A registration is answered with its own answer, or with its error.
pub proof fn law_of_register_reply(
    outcome: Result<RegisterResponse, String>,
    reply: RegisterResponse,
)
    requires
        call_ensures(register_reply, (outcome,), reply),
    ensures
        outcome matches Ok(response) ==> reply.success == response.success && reply.message@
            == response.message@,
        outcome matches Err(error) ==> !reply.success && reply.message@
            == "Registration failed: "@ + error@,
{
}

/// A new gateway has the router that it was given, and no open stream.
pub proof fn law_of_new_gateway(router: Router, gateway: GatewayServiceImpl, id: Seq<char>)
    requires
        call_ensures(GatewayServiceImpl::new, (router,), gateway),
    ensures
        gateway@.router == router@,
        !gateway@.streams.contains_key(id),
{
}

/// The router of a gateway is the one that it serves requests with.
pub proof fn law_of_router(gateway: &GatewayServiceImpl, router: &Router)
    requires
        call_ensures(GatewayServiceImpl::router, (gateway,), router),
    ensures
        router@ == gateway@.router,
{
}

/// A message that comes to the gateway is sent or refused as the router does it,
/// whatever its metadata is; every field but the target is kept, and no stream
/// changes.
pub proof fn law_of_forward(
    gateway: &mut GatewayServiceImpl,
    msg: Message,
    forwarding: Forwarding,
)
    requires
        call_ensures(GatewayServiceImpl::forward, (gateway, msg), forwarding),
    ensures
        forwarding.metadata is Absent <==> msg.metadata@.len() == 0,
        msg.metadata@.len() > 0 ==> (forwarding.metadata is Parsed <==> parsed_metadata(
            msg.metadata@,
        ) is Ok),
        (forwarding.dispatch is Err && forwarding.dispatch->Err_0.code == 5) <==> (
        msg.target_service@.len() == 0 && !(old(gateway)@.router.cmd_routes.contains_key(msg.cmd@)
            && old(gateway)@.router.cmd_routes[msg.cmd@].len() > 0)),
        msg.target_service@.len() > 0 ==> (forwarding.dispatch is Ok
            <==> old(gateway)@.router.clients.contains_key(msg.target_service@)),
        forwarding.dispatch matches Ok(sent) ==> {
            let target = sent.message.target_service@;
            &&& old(gateway)@.router.clients.contains_key(target)
            &&& sent.client == old(gateway)@.router.clients[target]
            &&& sent.message.source_service@ == msg.source_service@
            &&& sent.message.cmd@ == msg.cmd@
            &&& sent.message.user_id@ == msg.user_id@
            &&& sent.message.metadata@ == msg.metadata@
            &&& sent.message.extra@ == msg.extra@
            &&& msg.target_service@.len() > 0 ==> target == msg.target_service@
            &&& msg.target_service@.len() == 0 ==> old(gateway)@.router.cmd_routes.contains_key(
                msg.cmd@,
            ) && old(gateway)@.router.cmd_routes[msg.cmd@].contains(target)
        },
        ({
            let before = old(gateway)@.router;
            let after = final(gateway)@.router;
            let named = msg.target_service@;
            let cmd = msg.cmd@;
            let target = match forwarding.dispatch {
                Ok(sent) => Some(sent.message.target_service@),
                Err(status) => None::<Seq<char>>,
            };
            let healthy = before.cmd_routes[cmd].filter(
                |id: Seq<char>| before.health_status.contains_key(id) && before.health_status[id],
            );
            let len = healthy.len() as int;
            let kept: int = if before.turns.contains_key(cmd) {
                before.turns[cmd] as int
            } else {
                0
            };
            let strategy = if before.routing_strategy.contains_key(cmd) {
                before.routing_strategy[cmd]
            } else {
                before.default_strategy
            };
            let listed = before.cmd_routes.contains_key(cmd);
            &&& after.services == before.services
            &&& after.cmd_routes == before.cmd_routes
            &&& after.clients == before.clients
            &&& after.health_status == before.health_status
            &&& after.routing_strategy == before.routing_strategy
            &&& after.default_strategy == before.default_strategy
            &&& after.health_check_handles == before.health_check_handles
            &&& named.len() > 0 ==> {
                &&& after.turns == before.turns
                &&& target is Some <==> before.clients.contains_key(named)
                &&& target is Some ==> target->0 == named
            }
            &&& named.len() == 0 && !listed ==> after.turns == before.turns && target is None
            &&& named.len() == 0 && listed && len == 0 ==> {
                &&& after.turns == before.turns
                &&& target is Some <==> before.cmd_routes[cmd].len() > 0 && before.clients.contains_key(
                    before.cmd_routes[cmd][0],
                )
                &&& target is Some ==> target->0 == before.cmd_routes[cmd][0]
            }
            &&& named.len() == 0 && listed && 0 < len <= u64::MAX ==> match strategy {
                RoutingStrategy::RoundRobin => {
                    &&& target is Some <==> before.clients.contains_key(healthy[kept % len])
                    &&& target is Some ==> target->0 == healthy[kept % len]
                    &&& after.turns.contains_key(cmd)
                    &&& after.turns[cmd] as int == (kept % len + 1) % len
                    &&& forall|other: Seq<char>|
                        other != cmd ==> #[trigger] after.turns.get(other) == before.turns.get(other)
                },
                RoutingStrategy::FirstAvailable => {
                    &&& after.turns == before.turns
                    &&& target is Some <==> before.clients.contains_key(healthy[0])
                    &&& target is Some ==> target->0 == healthy[0]
                },
                RoutingStrategy::Random => {
                    &&& after.turns == before.turns
                    &&& target is Some ==> healthy.contains(target->0)
                    &&& target is None ==> exists|i: int|
                        0 <= i < len && !before.clients.contains_key(#[trigger] healthy[i])
                },
            }
        }),
        final(gateway)@.streams == old(gateway)@.streams,
{
    let before = old(gateway)@.router;
    let dispatch = forwarding.dispatch;
    let draw = choose|draw: int| #[trigger]
        before.can_draw(msg@.cmd, draw) && crate::router::dispatch_of(dispatch)
            == before.dispatched(msg@, before.route(msg@, draw));
    law_view_of_message(msg);
    law_reports(forwarding.metadata, msg@.metadata);
    let route = before.route(msg@, draw);
    lemma_route_forwards(before, msg@, draw);
    if msg@.target_service.len() == 0 {
        crate::laws::law_route_follows_health(before, msg@, draw);
    }
    crate::meaning::law_table_entries(before.cmd_routes, before.services, msg@.cmd, arbitrary());
    if route is Some {
        law_refusal_texts(before, msg@, route->0);
        if before.clients.contains_key(route->0) {
            law_every_field_is_kept(before, msg@, route->0);
            law_view_of_message(dispatch->Ok_0.message);
        }
    } else {
        law_refusal_texts(before, msg@, Seq::empty());
    }
}

/// A service that comes to the gateway to register is registered with the
/// router, and no stream changes.
pub proof fn law_of_register(
    gateway: &mut GatewayServiceImpl,
    info: &ServiceInfo,
    start: Registration,
    cmd: Seq<char>,
    other: Seq<char>,
)
    requires
        call_ensures(GatewayServiceImpl::register, (gateway, info), start),
    ensures
        start.endpoint@ == "http://"@ + info.service_addr@,
        start.cancel == old(gateway)@.router.health_check_handles.get(info.service_id@),
        final(gateway)@.streams == old(gateway)@.streams,
        ({
            let id = info.service_id@;
            let before = old(gateway)@.router;
            let after = final(gateway)@.router;
            let names = exists|i: int|
                0 <= i < info.commands@.len() && (#[trigger] info.commands@[i])@ == cmd;
            &&& after.services.contains_key(id)
            &&& after.services[id].service_id == id
            &&& after.services[id].service_name == info.service_name@
            &&& after.services[id].service_addr == info.service_addr@
            &&& after.services[id].commands.len() == info.commands@.len()
            &&& forall|i: int|
                0 <= i < info.commands@.len() ==> #[trigger] after.services[id].commands[i]
                    == info.commands@[i]@
            &&& after.services[id].health_check_interval_sec == info.health_check_interval_sec
            &&& other != id ==> after.services.get(other) == before.services.get(other)
            &&& !after.health_check_handles.contains_key(id)
            &&& other != id ==> after.health_check_handles.get(other)
                == before.health_check_handles.get(other)
            &&& after.clients == before.clients
            &&& after.health_status == before.health_status
            &&& after.routing_strategy == before.routing_strategy
            &&& after.default_strategy == before.default_strategy
            &&& after.turns == before.turns
            &&& !names ==> after.cmd_routes.get(cmd) == before.cmd_routes.get(cmd)
            &&& names ==> {
                &&& after.cmd_routes.contains_key(cmd)
                &&& !before.cmd_routes.contains_key(cmd) ==> after.cmd_routes[cmd] == seq![id]
                &&& before.cmd_routes.contains_key(cmd) && before.cmd_routes[cmd].contains(id)
                    ==> after.cmd_routes[cmd] == before.cmd_routes[cmd]
                &&& before.cmd_routes.contains_key(cmd) && !before.cmd_routes[cmd].contains(id)
                    ==> after.cmd_routes[cmd] == before.cmd_routes[cmd].push(id)
            }
            &&& (after.cmd_routes.contains_key(cmd) && after.cmd_routes[cmd].contains(other)) <==> (
            (before.cmd_routes.contains_key(cmd) && before.cmd_routes[cmd].contains(other)) || (
            other == id && names))
        }),
{
    law_view_of_service(*info);
    let before = old(gateway)@.router;
    law_registration_of_routes(before, info@, cmd);
    law_registration_adds_only_itself(before, info@, cmd, other);
    law_registration_of_the_rest(before, info@, other);
    lemma_names(*info, cmd);
}

/// A stream that is opened has its entry, and no other entry and nothing of the
/// router changes. A sender that had the same id is handed out.
pub proof fn law_of_attach_stream(
    gateway: &mut GatewayServiceImpl,
    stream_id: &str,
    sender: u64,
    displaced: Option<u64>,
    other: Seq<char>,
)
    requires
        call_ensures(GatewayServiceImpl::attach_stream, (gateway, stream_id, sender), displaced),
    ensures
        displaced == old(gateway)@.streams.get(stream_id@),
        final(gateway)@.streams.contains_key(stream_id@),
        final(gateway)@.streams[stream_id@] == sender,
        other != stream_id@ ==> final(gateway)@.streams.get(other) == old(gateway)@.streams.get(
            other,
        ),
        final(gateway)@.router == old(gateway)@.router,
{
}

/// The same of a stream that is opened under a random id, which is the text of a
/// random UUID.
pub proof fn law_of_stream(
    gateway: &mut GatewayServiceImpl,
    sender: u64,
    opened: OpenedStream,
    other: Seq<char>,
    i: int,
)
    requires
        call_ensures(GatewayServiceImpl::stream, (gateway, sender), opened),
        0 <= i < 36,
    ensures
        opened.displaced == old(gateway)@.streams.get(opened.stream_id@),
        final(gateway)@.streams.contains_key(opened.stream_id@),
        final(gateway)@.streams[opened.stream_id@] == sender,
        other != opened.stream_id@ ==> final(gateway)@.streams.get(other)
            == old(gateway)@.streams.get(other),
        final(gateway)@.router == old(gateway)@.router,
        opened.stream_id@.len() == 36,
        i == 8 || i == 13 || i == 18 || i == 23 ==> opened.stream_id@[i] == '-',
        i != 8 && i != 13 && i != 18 && i != 23 ==> '0' <= opened.stream_id@[i] <= '9' || 'a'
            <= opened.stream_id@[i] <= 'f',
        opened.stream_id@[14] == '4',
{
    law_form_of_stream_ids(opened.stream_id@, i);
}

/// A message that came in is forwarded as it is, what came of it is sent back as
/// it is, and then the next one is waited for; all that changes nothing. When
/// the peer sends no more, or when receiving or sending fails, the stream is
/// closed: its entry is taken away and its sender handed out, and nothing else
/// changes.
pub proof fn law_of_stream_event<R>(
    gateway: &mut GatewayServiceImpl,
    stream_id: &str,
    event: StreamEvent<R>,
    action: StreamAction<R>,
    other: Seq<char>,
)
    requires
        call_ensures(GatewayServiceImpl::stream_event::<R>, (gateway, stream_id, event), action),
    ensures
        event matches StreamEvent::Received(msg) ==> action == StreamAction::<R>::Forward(msg)
            && final(gateway)@ == old(gateway)@,
        event matches StreamEvent::Replied(reply) ==> action == StreamAction::<R>::Send(reply)
            && final(gateway)@ == old(gateway)@,
        event is Sent ==> action is Receive && final(gateway)@ == old(gateway)@,
        event is Ended || event is ReceiveFailed || event is SendFailed ==> {
            &&& action == StreamAction::<R>::Close(old(gateway)@.streams.get(stream_id@))
            &&& !final(gateway)@.streams.contains_key(stream_id@)
            &&& other != stream_id@ ==> final(gateway)@.streams.get(other)
                == old(gateway)@.streams.get(other)
            &&& final(gateway)@.router == old(gateway)@.router
        },
{
}

/// A question for the health of a service is answered by its entry and its flag.
pub proof fn law_of_health_check(
    gateway: &GatewayServiceImpl,
    request: HealthCheckRequest,
    response: HealthCheckResponse,
)
    requires
        call_ensures(GatewayServiceImpl::health_check, (gateway, request), response),
    ensures
        ({
            let id = request.service_id@;
            let router = gateway@.router;
            let healthy = router.health_status.contains_key(id) && router.health_status[id];
            &&& !router.services.contains_key(id) ==> response.status == 3 && response.message@
                == "Service "@ + id + " not registered"@
            &&& router.services.contains_key(id) && healthy ==> response.status == 1
                && response.message@ == "Service "@ + id + " is healthy"@
            &&& router.services.contains_key(id) && !healthy ==> response.status == 2
                && response.message@ == "Service "@ + id + " is not healthy"@
        }),
{
    law_health_texts(gateway@.router, request.service_id@);
}

} // verus!
