//! What the words of the model mean, spelled out over the tables and texts
//! themselves: the laws here use none of those words in what they promise of
//! them.

use vstd::prelude::*;

use crate::chance::is_uuid_text;
use crate::gateway::{ends_stream, health_answer, GatewayView, StreamEvent};
use crate::metadata::{is_outcome, is_report, lists_members, parsed_metadata, MetadataReport};
use crate::model::{check_interval, picked, DispatchView, RouterView};
use crate::router::{are_plans, dispatch_of, is_plan, Dispatch, HealthCheckPlan};
use crate::tables::{list_at, lists_interval};
use crate::types::{
    text_of, texts, Message, MessageView, RoutingStrategy, ServiceInfo, ServiceInfoView, Status,
    StatusView, CODE_NOT_FOUND, CODE_UNAVAILABLE, NOT_SERVING, SERVICE_UNKNOWN, SERVING,
};

verus! {

/// The numbers of the protocols.
pub proof fn law_numbers()
    ensures
        SERVING == 1,
        NOT_SERVING == 2,
        SERVICE_UNKNOWN == 3,
        CODE_NOT_FOUND == 5,
        CODE_UNAVAILABLE == 14,
{
}

/// The view of a message holds the text of each of its fields.
pub proof fn law_view_of_message(msg: Message)
    ensures
        msg@.source_service == msg.source_service@,
        msg@.target_service == msg.target_service@,
        msg@.cmd == msg.cmd@,
        msg@.user_id == msg.user_id@,
        msg@.metadata == msg.metadata@,
        msg@.extra == msg.extra@,
{
}

/// The view of what a service says of itself holds each of its fields.
pub proof fn law_view_of_service(info: ServiceInfo)
    ensures
        info@.service_id == info.service_id@,
        info@.service_name == info.service_name@,
        info@.service_addr == info.service_addr@,
        info@.commands.len() == info.commands@.len(),
        forall|i: int|
            0 <= i < info.commands@.len() ==> #[trigger] info@.commands[i] == info.commands@[i]@,
        info@.health_check_interval_sec == info.health_check_interval_sec,
{
}

/// The views of lists, of optional texts, of refusals and of dispatches hold
/// what these hold.
pub proof fn law_other_views(
    list: Seq<String>,
    text: Option<String>,
    status: Status,
    dispatch: Dispatch,
)
    ensures
        texts(list).len() == list.len(),
        forall|i: int| 0 <= i < list.len() ==> #[trigger] texts(list)[i] == list[i]@,
        text is Some ==> text_of(text) == Some(text->0@),
        text is None ==> text_of(text) is None,
        status@.code == status.code,
        status@.message == status.message@,
        dispatch@.client == dispatch.client,
        dispatch@.message == dispatch.message@,
        dispatch@.known_unhealthy == dispatch.known_unhealthy,
        dispatch_of(Ok(dispatch)) == Ok::<DispatchView, StatusView>(dispatch@),
        dispatch_of(Err(status)) == Err::<DispatchView, StatusView>(status@),
{
}

/// Entries of a table, and lists that are not there.
pub proof fn law_table_entries(
    routes: Map<Seq<char>, Seq<Seq<char>>>,
    services: Map<Seq<char>, ServiceInfoView>,
    key: Seq<char>,
    listed: (String, i32),
)
    ensures
        routes.contains_key(key) ==> list_at(routes, key) == routes[key],
        !routes.contains_key(key) ==> list_at(routes, key).len() == 0,
        lists_interval(services, listed) <==> (services.contains_key(listed.0@)
            && services[listed.0@].health_check_interval_sec == listed.1),
{
}

/// A service that asks for health checks at a positive interval gets them at
/// that very interval, however short or long; one that does not gets none.
pub proof fn law_interval_is_kept(interval_sec: i32)
    ensures
        interval_sec > 0 ==> check_interval(interval_sec) is Some && check_interval(
            interval_sec,
        )->0 as int == interval_sec as int,
        interval_sec <= 0 ==> check_interval(interval_sec) is None,
{
}

/// A service is healthy where its flag is there and set, and known to be
/// unhealthy where it is there and not set.
pub proof fn law_health_is_the_flag(router: RouterView, id: Seq<char>)
    ensures
        router.is_healthy(id) <==> router.health_status.contains_key(id)
            && router.health_status[id],
        router.is_known_unhealthy(id) <==> router.health_status.contains_key(id)
            && !router.health_status[id],
        router.health_filter()(id) <==> router.health_status.contains_key(id)
            && router.health_status[id],
{
}

/// The services that support a command are those of its list; the healthy ones
/// of them are those of the list whose flag is set, in the order of the list;
/// and chance gives an index into those.
pub proof fn law_candidates_are_the_list(router: RouterView, cmd: Seq<char>)
    ensures
        router.cmd_routes.contains_key(cmd) ==> {
            let healthy = router.cmd_routes[cmd].filter(
                |id: Seq<char>| router.health_status.contains_key(id) && router.health_status[id],
            );
            &&& router.candidates(cmd) == router.cmd_routes[cmd]
            &&& router.healthy_candidates(cmd) == healthy
            &&& forall|draw: int|
                healthy.len() > 0 ==> (#[trigger] router.can_draw(cmd, draw) <==> 0 <= draw
                    < healthy.len())
        },
        !router.cmd_routes.contains_key(cmd) ==> router.candidates(cmd).len() == 0
            && router.healthy_candidates(cmd).len() == 0,
{
    assert(router.health_filter() =~= (|id: Seq<char>|
        router.health_status.contains_key(id) && router.health_status[id]));
    reveal(Seq::filter);
}

/// A message that names a target goes there, and changes nothing.
pub proof fn law_named_target(router: RouterView, msg: MessageView, draw: int)
    requires
        msg.target_service.len() > 0,
    ensures
        router.route(msg, draw) == Some(msg.target_service),
        router.after_route(msg) == router,
{
}

/// A message for which there is no healthy service goes to the first of the
/// list of its command, and nowhere where there is no list or an empty one. It
/// changes nothing.
pub proof fn law_nobody_is_healthy(router: RouterView, msg: MessageView, draw: int)
    requires
        msg.target_service.len() == 0,
        router.cmd_routes.contains_key(msg.cmd) ==> forall|i: int|
            0 <= i < router.cmd_routes[msg.cmd].len() ==> !(router.health_status.contains_key(
                #[trigger] router.cmd_routes[msg.cmd][i],
            ) && router.health_status[router.cmd_routes[msg.cmd][i]]),
    ensures
        router.cmd_routes.contains_key(msg.cmd) && router.cmd_routes[msg.cmd].len() > 0
            ==> router.route(msg, draw) == Some(router.cmd_routes[msg.cmd][0]),
        !router.cmd_routes.contains_key(msg.cmd) || router.cmd_routes[msg.cmd].len() == 0
            ==> router.route(msg, draw) is None,
        router.after_route(msg) == router,
{
    let all = router.candidates(msg.cmd);
    let healthy = router.healthy_candidates(msg.cmd);
    reveal(Seq::filter);
    if healthy.len() > 0 {
        crate::laws::law_healthy_candidates(router, msg.cmd);
        assert(healthy.contains(healthy[0]));
        assert(all.contains(healthy[0]) && router.is_healthy(healthy[0]));
        let i = choose|i: int| 0 <= i < all.len() && all[i] == healthy[0];
        assert(router.cmd_routes[msg.cmd][i] == healthy[0]);
    }
}

/// Where services are picked in turn, a message goes to the healthy service
/// whose turn it is, counted round from what is kept for its command, or from 0
/// where nothing is kept yet; the next turn is that of the one behind it, and of
/// the first one behind the last. Nothing else changes.
pub proof fn law_round_robin(router: RouterView, msg: MessageView, draw: int)
    requires
        msg.target_service.len() == 0,
        router.cmd_routes.contains_key(msg.cmd),
        router.cmd_routes[msg.cmd].filter(
            |id: Seq<char>| router.health_status.contains_key(id) && router.health_status[id],
        ).len() > 0,
        router.routing_strategy.contains_key(msg.cmd) ==> router.routing_strategy[msg.cmd]
            == RoutingStrategy::RoundRobin,
        !router.routing_strategy.contains_key(msg.cmd) ==> router.default_strategy
            == RoutingStrategy::RoundRobin,
    ensures
        ({
            let healthy = router.cmd_routes[msg.cmd].filter(
                |id: Seq<char>| router.health_status.contains_key(id) && router.health_status[id],
            );
            let len = healthy.len() as int;
            let kept: int = if router.turns.contains_key(msg.cmd) {
                router.turns[msg.cmd] as int
            } else {
                0
            };
            let after = router.after_route(msg);
            &&& router.route(msg, draw) == Some(healthy[kept % len])
            &&& after.turns.contains_key(msg.cmd)
            &&& len <= u64::MAX ==> after.turns[msg.cmd] as int == (kept % len + 1) % len
            &&& forall|cmd: Seq<char>|
                cmd != msg.cmd ==> #[trigger] after.turns.get(cmd) == router.turns.get(cmd)
            &&& after.services == router.services
            &&& after.cmd_routes == router.cmd_routes
            &&& after.clients == router.clients
            &&& after.health_status == router.health_status
            &&& after.routing_strategy == router.routing_strategy
            &&& after.default_strategy == router.default_strategy
            &&& after.health_check_handles == router.health_check_handles
        }),
{
    law_candidates_are_the_list(router, msg.cmd);
    crate::laws::lemma_has_candidates(router, msg.cmd);
    let len = router.healthy_candidates(msg.cmd).len() as int;
    let next = (router.turn(msg.cmd) + 1) % len;
    assert(0 <= next < len);
}

/// The first message with a command goes to the first healthy service of the
/// list, where services are picked in turn.
pub proof fn law_first_message_goes_to_the_first(router: RouterView, msg: MessageView, draw: int)
    requires
        msg.target_service.len() == 0,
        router.cmd_routes.contains_key(msg.cmd),
        router.cmd_routes[msg.cmd].filter(
            |id: Seq<char>| router.health_status.contains_key(id) && router.health_status[id],
        ).len() > 0,
        !router.routing_strategy.contains_key(msg.cmd),
        router.default_strategy == RoutingStrategy::RoundRobin,
        !router.turns.contains_key(msg.cmd),
    ensures
        router.route(msg, draw) == Some(
            router.cmd_routes[msg.cmd].filter(
                |id: Seq<char>| router.health_status.contains_key(id) && router.health_status[id],
            )[0],
        ),
{
    law_round_robin(router, msg, draw);
}

/// Two messages in a row with one command, both without a target, go to
/// different services where there are at least two healthy ones and they are
/// picked in turn.
pub proof fn law_two_in_a_row_differ(
    router: RouterView,
    msg: MessageView,
    next: MessageView,
    draw: int,
    next_draw: int,
)
    requires
        msg.target_service.len() == 0,
        next.target_service.len() == 0,
        next.cmd == msg.cmd,
        router.cmd_routes.contains_key(msg.cmd),
        router.cmd_routes[msg.cmd].no_duplicates(),
        2 <= router.cmd_routes[msg.cmd].filter(
            |id: Seq<char>| router.health_status.contains_key(id) && router.health_status[id],
        ).len() <= u64::MAX,
        router.routing_strategy.contains_key(msg.cmd) ==> router.routing_strategy[msg.cmd]
            == RoutingStrategy::RoundRobin,
        !router.routing_strategy.contains_key(msg.cmd) ==> router.default_strategy
            == RoutingStrategy::RoundRobin,
    ensures
        router.route(msg, draw) is Some,
        router.after_route(msg).route(next, next_draw) is Some,
        router.route(msg, draw) != router.after_route(msg).route(next, next_draw),
{
    let test = |id: Seq<char>| router.health_status.contains_key(id) && router.health_status[id];
    let healthy = router.cmd_routes[msg.cmd].filter(test);
    let len = healthy.len() as int;
    let after = router.after_route(msg);
    law_round_robin(router, msg, draw);
    assert(test =~= (|id: Seq<char>|
        after.health_status.contains_key(id) && after.health_status[id]));
    law_round_robin(after, next, next_draw);
    crate::laws::lemma_filter_keeps_distinct(router.cmd_routes[msg.cmd], test);
    let kept: int = if router.turns.contains_key(msg.cmd) {
        router.turns[msg.cmd] as int
    } else {
        0
    };
    let here = kept % len;
    assert(0 <= here < len);
    crate::laws::lemma_count_round(here + 1, len);
    crate::laws::lemma_count_round((here + 1) % len, len);
}

/// Under the other strategies a message goes to the first healthy service, or to
/// the one at the index that chance gave, and changes nothing.
pub proof fn law_other_strategies(
    router: RouterView,
    msg: MessageView,
    draw: int,
    strategy: RoutingStrategy,
)
    requires
        msg.target_service.len() == 0,
        router.cmd_routes.contains_key(msg.cmd),
        router.cmd_routes[msg.cmd].filter(
            |id: Seq<char>| router.health_status.contains_key(id) && router.health_status[id],
        ).len() > 0,
        router.routing_strategy.contains_key(msg.cmd) ==> router.routing_strategy[msg.cmd]
            == strategy,
        !router.routing_strategy.contains_key(msg.cmd) ==> router.default_strategy == strategy,
        strategy != RoutingStrategy::RoundRobin,
    ensures
        ({
            let healthy = router.cmd_routes[msg.cmd].filter(
                |id: Seq<char>| router.health_status.contains_key(id) && router.health_status[id],
            );
            &&& strategy == RoutingStrategy::FirstAvailable ==> router.route(msg, draw) == Some(
                healthy[0],
            )
            &&& strategy == RoutingStrategy::Random && 0 <= draw < healthy.len() ==> router.route(
                msg,
                draw,
            ) == Some(healthy[draw])
            &&& router.after_route(msg) == router
        }),
{
    law_candidates_are_the_list(router, msg.cmd);
    crate::laws::lemma_has_candidates(router, msg.cmd);
}

/// What a strategy picks of a list: the first, the one whose turn it is, or the
/// one that chance gave. The strategy of a command is its own, or the default.
pub proof fn law_strategies(
    router: RouterView,
    cmd: Seq<char>,
    list: Seq<Seq<char>>,
    turn: int,
    draw: int,
)
    ensures
        picked(RoutingStrategy::FirstAvailable, list, turn, draw) == list[0],
        picked(RoutingStrategy::RoundRobin, list, turn, draw) == list[turn],
        picked(RoutingStrategy::Random, list, turn, draw) == list[draw],
        router.routing_strategy.contains_key(cmd) ==> router.strategy_for(cmd)
            == router.routing_strategy[cmd],
        !router.routing_strategy.contains_key(cmd) ==> router.strategy_for(cmd)
            == router.default_strategy,
{
}

/// A message that is sent has every field of the message that came, but for the
/// target, which is the service that it goes to. It is sent on the connection to
/// that service, and it is known whether the service was unhealthy.
pub proof fn law_every_field_is_kept(router: RouterView, msg: MessageView, id: Seq<char>)
    requires
        router.clients.contains_key(id),
    ensures
        router.dispatched(msg, Some(id)) is Ok,
        ({
            let dispatch = router.dispatched(msg, Some(id))->Ok_0;
            &&& dispatch.client == router.clients[id]
            &&& dispatch.message.target_service == id
            &&& dispatch.message.source_service == msg.source_service
            &&& dispatch.message.cmd == msg.cmd
            &&& dispatch.message.user_id == msg.user_id
            &&& dispatch.message.metadata == msg.metadata
            &&& dispatch.message.extra == msg.extra
            &&& dispatch.known_unhealthy <==> (router.health_status.contains_key(id)
                && !router.health_status[id])
        }),
{
}

/// A message is addressed by its target alone.
pub proof fn law_addressing_touches_the_target_only(msg: MessageView, target: Seq<char>)
    ensures
        msg.addressed_to(target).target_service == target,
        msg.addressed_to(target).source_service == msg.source_service,
        msg.addressed_to(target).cmd == msg.cmd,
        msg.addressed_to(target).user_id == msg.user_id,
        msg.addressed_to(target).metadata == msg.metadata,
        msg.addressed_to(target).extra == msg.extra,
{
}

/// What a message is refused with: the number and the text for no route, and
/// those for no connection.
pub proof fn law_refusal_texts(router: RouterView, msg: MessageView, id: Seq<char>)
    ensures
        router.dispatched(msg, None) is Err,
        router.dispatched(msg, None)->Err_0.code == 5,
        router.dispatched(msg, None)->Err_0.message == "No service found for the given command"@,
        !router.clients.contains_key(id) ==> {
            &&& router.dispatched(msg, Some(id)) is Err
            &&& router.dispatched(msg, Some(id))->Err_0.code == 14
            &&& router.dispatched(msg, Some(id))->Err_0.message
                == "Service connection not available"@
        },
{
}

/// A new router holds nothing, and picks services in turn.
pub proof fn law_new_router_is_empty(key: Seq<char>)
    ensures
        !RouterView::initial().services.contains_key(key),
        !RouterView::initial().cmd_routes.contains_key(key),
        !RouterView::initial().clients.contains_key(key),
        !RouterView::initial().health_status.contains_key(key),
        !RouterView::initial().routing_strategy.contains_key(key),
        !RouterView::initial().turns.contains_key(key),
        !RouterView::initial().health_check_handles.contains_key(key),
        RouterView::initial().default_strategy == RoutingStrategy::RoundRobin,
{
}

/// What a registration does to the list of a command. A command that the service
/// did not name keeps its list. One that it named has a list with the service in
/// it: the list as it was where the service was in it, and else the list with
/// the service behind all others, alone where there was no list.
pub proof fn law_registration_of_routes(
    router: RouterView,
    info: ServiceInfoView,
    cmd: Seq<char>,
)
    ensures
        ({
            let id = info.service_id;
            let before = router.cmd_routes;
            let after = router.registered(info).cmd_routes;
            &&& after.contains_key(cmd) <==> before.contains_key(cmd) || info.commands.contains(cmd)
            &&& !info.commands.contains(cmd) && before.contains_key(cmd) ==> after[cmd]
                == before[cmd]
            &&& info.commands.contains(cmd) && before.contains_key(cmd) && before[cmd].contains(id)
                ==> after[cmd] == before[cmd]
            &&& info.commands.contains(cmd) && before.contains_key(cmd) && !before[cmd].contains(
                id,
            ) ==> after[cmd] == before[cmd].push(id)
            &&& info.commands.contains(cmd) && !before.contains_key(cmd) ==> after[cmd] == seq![id]
        }),
{
    assert(Seq::<Seq<char>>::empty().push(info.service_id) =~= seq![info.service_id]);
}

/// A registration puts nobody into a list but the service that registers, and
/// that one only into the lists of the commands that it names; and it takes
/// nobody out of a list.
pub proof fn law_registration_adds_only_itself(
    router: RouterView,
    info: ServiceInfoView,
    cmd: Seq<char>,
    id: Seq<char>,
)
    ensures
        ({
            let listed_before = router.cmd_routes.contains_key(cmd)
                && router.cmd_routes[cmd].contains(id);
            let listed_after = router.registered(info).cmd_routes.contains_key(cmd)
                && router.registered(info).cmd_routes[cmd].contains(id);
            listed_after <==> listed_before || (id == info.service_id && info.commands.contains(
                cmd,
            ))
        }),
{
    law_registration_of_routes(router, info, cmd);
    let before = list_at(router.cmd_routes, cmd);
    let longer = before.push(info.service_id);
    assert(longer[before.len() as int] == info.service_id);
    assert forall|other: Seq<char>| longer.contains(other) <==> before.contains(other) || other
        == info.service_id by {
        if before.contains(other) {
            let i = choose|i: int| 0 <= i < before.len() && before[i] == other;
            assert(longer[i] == other);
        }
        if longer.contains(other) {
            let i = choose|i: int| 0 <= i < longer.len() && longer[i] == other;
            assert(i < before.len() ==> before[i] == other);
        }
    }
    assert(seq![info.service_id][0] == info.service_id);
}

/// What else a registration does: the service is known by what it says of
/// itself, its former health check is given up, and no other entry of any table
/// changes.
pub proof fn law_registration_of_the_rest(
    router: RouterView,
    info: ServiceInfoView,
    other: Seq<char>,
)
    ensures
        ({
            let after = router.registered(info);
            &&& after.services.contains_key(info.service_id)
            &&& after.services[info.service_id] == info
            &&& !after.health_check_handles.contains_key(info.service_id)
            &&& other != info.service_id ==> {
                &&& after.services.get(other) == router.services.get(other)
                &&& after.health_check_handles.get(other) == router.health_check_handles.get(other)
            }
            &&& after.clients == router.clients
            &&& after.health_status == router.health_status
            &&& after.routing_strategy == router.routing_strategy
            &&& after.default_strategy == router.default_strategy
            &&& after.turns == router.turns
        }),
{
}

/// A connection to a service that registers is kept, and the service is healthy;
/// a new connection to a known service is kept. No other entry of any table
/// changes.
pub proof fn law_connection_is_kept(
    router: RouterView,
    id: Seq<char>,
    client: u64,
    other: Seq<char>,
)
    ensures
        ({
            let after = router.connected(id, client);
            &&& after.clients.contains_key(id) && after.clients[id] == client
            &&& after.health_status.contains_key(id) && after.health_status[id]
            &&& other != id ==> after.clients.get(other) == router.clients.get(other)
            &&& other != id ==> after.health_status.get(other) == router.health_status.get(other)
            &&& after.services == router.services
            &&& after.cmd_routes == router.cmd_routes
            &&& after.routing_strategy == router.routing_strategy
            &&& after.default_strategy == router.default_strategy
            &&& after.turns == router.turns
            &&& after.health_check_handles == router.health_check_handles
        }),
        ({
            let after = router.reconnected(id, client);
            &&& after.clients.contains_key(id) && after.clients[id] == client
            &&& other != id ==> after.clients.get(other) == router.clients.get(other)
            &&& after.services == router.services
            &&& after.cmd_routes == router.cmd_routes
            &&& after.health_status == router.health_status
            &&& after.routing_strategy == router.routing_strategy
            &&& after.default_strategy == router.default_strategy
            &&& after.turns == router.turns
            &&& after.health_check_handles == router.health_check_handles
        }),
{
}

/// The health that a service is found to have is kept, be it good or bad, and no
/// other entry of any table changes.
pub proof fn law_health_is_kept(
    router: RouterView,
    id: Seq<char>,
    healthy: bool,
    other: Seq<char>,
)
    ensures
        ({
            let after = router.with_health(id, healthy);
            &&& after.health_status.contains_key(id) && after.health_status[id] == healthy
            &&& other != id ==> after.health_status.get(other) == router.health_status.get(other)
            &&& after.services == router.services
            &&& after.cmd_routes == router.cmd_routes
            &&& after.clients == router.clients
            &&& after.routing_strategy == router.routing_strategy
            &&& after.default_strategy == router.default_strategy
            &&& after.turns == router.turns
            &&& after.health_check_handles == router.health_check_handles
        }),
{
}

/// An answer is heard over a connection, and only over one.
pub proof fn law_answers_need_a_connection(router: RouterView, id: Seq<char>, answer: Option<i32>)
    ensures
        router.clients.contains_key(id) ==> router.heard(id, answer) == answer,
        !router.clients.contains_key(id) ==> router.heard(id, answer) is None,
{
}

/// The task that checks the health of a service is kept; when the checks start
/// anew, those of registered services are given up and no others. No other entry
/// of any table changes.
pub proof fn law_health_checks_are_kept(
    router: RouterView,
    id: Seq<char>,
    handle: u64,
    other: Seq<char>,
)
    ensures
        ({
            let after = router.with_health_check(id, handle);
            &&& after.health_check_handles.contains_key(id)
            &&& after.health_check_handles[id] == handle
            &&& other != id ==> after.health_check_handles.get(other)
                == router.health_check_handles.get(other)
            &&& after.services == router.services
            &&& after.cmd_routes == router.cmd_routes
            &&& after.clients == router.clients
            &&& after.health_status == router.health_status
            &&& after.routing_strategy == router.routing_strategy
            &&& after.default_strategy == router.default_strategy
            &&& after.turns == router.turns
        }),
        ({
            let after = router.without_health_checks();
            &&& router.services.contains_key(other) ==> !after.health_check_handles.contains_key(
                other,
            )
            &&& !router.services.contains_key(other) ==> after.health_check_handles.get(other)
                == router.health_check_handles.get(other)
            &&& after.services == router.services
            &&& after.cmd_routes == router.cmd_routes
            &&& after.clients == router.clients
            &&& after.health_status == router.health_status
            &&& after.routing_strategy == router.routing_strategy
            &&& after.default_strategy == router.default_strategy
            &&& after.turns == router.turns
        }),
{
}

/// When the health checks start anew, there is a plan for each registered
/// service, healthy or not, connected or not, and for nobody else, and no two
/// plans for one service. The task that checked it is cancelled, where there is
/// one. A new one is planned at the interval that the service registered with
/// exactly where that is positive.
pub proof fn law_every_service_is_planned_for(
    router: RouterView,
    plans: Seq<HealthCheckPlan>,
    id: Seq<char>,
)
    requires
        are_plans(router, plans),
    ensures
        router.services.contains_key(id) <==> exists|i: int|
            0 <= i < plans.len() && (#[trigger] plans[i]).service_id@ == id,
        forall|i: int, j: int|
            0 <= i < j < plans.len() ==> (#[trigger] plans[i]).service_id@ != (
            #[trigger] plans[j]).service_id@,
        forall|i: int|
            0 <= i < plans.len() && (#[trigger] plans[i]).service_id@ == id ==> {
                let interval = router.services[id].health_check_interval_sec;
                &&& interval > 0 ==> plans[i].check_interval is Some && plans[i].check_interval->0
                    as int == interval as int
                &&& interval <= 0 ==> plans[i].check_interval is None
                &&& router.health_check_handles.contains_key(id) ==> plans[i].cancel == Some(
                    router.health_check_handles[id],
                )
                &&& !router.health_check_handles.contains_key(id) ==> plans[i].cancel is None
            },
{
    assert forall|i: int| 0 <= i < plans.len() implies is_plan(router, #[trigger] plans[i]) by {}
    if exists|i: int| 0 <= i < plans.len() && (#[trigger] plans[i]).service_id@ == id {
        let i = choose|i: int| 0 <= i < plans.len() && (#[trigger] plans[i]).service_id@ == id;
        assert(is_plan(router, plans[i]));
    }
}

/// A question for the health of a service is answered with one of three numbers
/// and texts: for a service that never registered, for one whose flag is set,
/// and for one whose flag is not set or not there.
pub proof fn law_health_texts(router: RouterView, id: Seq<char>)
    ensures
        !router.services.contains_key(id) ==> {
            &&& health_answer(router, id).0 == 3
            &&& health_answer(router, id).1 == "Service "@ + id + " not registered"@
        },
        router.services.contains_key(id) && router.health_status.contains_key(id)
            && router.health_status[id] ==> {
            &&& health_answer(router, id).0 == 1
            &&& health_answer(router, id).1 == "Service "@ + id + " is healthy"@
        },
        router.services.contains_key(id) && !(router.health_status.contains_key(id)
            && router.health_status[id]) ==> {
            &&& health_answer(router, id).0 == 2
            &&& health_answer(router, id).1 == "Service "@ + id + " is not healthy"@
        },
{
}

/// What a well-formed router has of each entry: a service is known under its own
/// id; the lists name registered services, at least one, and none twice; only
/// registered services have a connection, a flag or a health check; and a set
/// flag comes with a connection.
pub proof fn law_wf_of_entries(router: RouterView, key: Seq<char>)
    requires
        router.wf(),
    ensures
        router.services.contains_key(key) ==> router.services[key].service_id == key,
        router.cmd_routes.contains_key(key) ==> {
            &&& router.cmd_routes[key].len() > 0
            &&& router.cmd_routes[key].no_duplicates()
            &&& forall|i: int|
                0 <= i < router.cmd_routes[key].len() ==> router.services.contains_key(
                    #[trigger] router.cmd_routes[key][i],
                )
        },
        router.clients.contains_key(key) ==> router.services.contains_key(key),
        router.health_status.contains_key(key) ==> router.services.contains_key(key),
        router.health_check_handles.contains_key(key) ==> router.services.contains_key(key),
        router.health_status.contains_key(key) && router.health_status[key]
            ==> router.clients.contains_key(key),
{
    assert(router.is_healthy(key) ==> router.clients.contains_key(key));
    assert(router.cmd_routes.contains_key(key) ==> router.is_route_list(router.cmd_routes[key]));
}

/// A router whose entries are all like that is well-formed.
pub proof fn law_entries_make_wf(router: RouterView)
    requires
        forall|id: Seq<char>| #[trigger]
            router.services.contains_key(id) ==> router.services[id].service_id == id,
        forall|cmd: Seq<char>| #[trigger]
            router.cmd_routes.contains_key(cmd) ==> router.cmd_routes[cmd].len() > 0
                && router.cmd_routes[cmd].no_duplicates(),
        forall|cmd: Seq<char>, i: int|
            router.cmd_routes.contains_key(cmd) && 0 <= i < router.cmd_routes[cmd].len()
                ==> router.services.contains_key(#[trigger] router.cmd_routes[cmd][i]),
        forall|id: Seq<char>| #[trigger]
            router.clients.contains_key(id) ==> router.services.contains_key(id),
        forall|id: Seq<char>| #[trigger]
            router.health_status.contains_key(id) ==> router.services.contains_key(id) && (
            router.health_status[id] ==> router.clients.contains_key(id)),
        forall|id: Seq<char>| #[trigger]
            router.health_check_handles.contains_key(id) ==> router.services.contains_key(id),
    ensures
        router.wf(),
{
}

/// Opening a stream adds its entry and closing it takes the entry away; no other
/// entry and nothing of the router changes.
pub proof fn law_streams_come_and_go(
    gateway: GatewayView,
    id: Seq<char>,
    sender: u64,
    other: Seq<char>,
)
    ensures
        gateway.with_stream(id, sender).streams.contains_key(id),
        gateway.with_stream(id, sender).streams[id] == sender,
        !gateway.without_stream(id).streams.contains_key(id),
        other != id ==> gateway.with_stream(id, sender).streams.get(other)
            == gateway.streams.get(other),
        other != id ==> gateway.without_stream(id).streams.get(other) == gateway.streams.get(other),
        gateway.with_stream(id, sender).router == gateway.router,
        gateway.without_stream(id).router == gateway.router,
{
}

/// A stream ends when the peer sends no more, or when receiving or sending
/// fails; a message, a reply and a delivery do not end it.
pub proof fn law_what_ends_a_stream<R>(msg: Message, reply: R)
    ensures
        ends_stream(StreamEvent::<R>::ReceiveFailed),
        ends_stream(StreamEvent::<R>::Ended),
        ends_stream(StreamEvent::<R>::SendFailed),
        !ends_stream(StreamEvent::<R>::Received(msg)),
        !ends_stream(StreamEvent::<R>::Replied(reply)),
        !ends_stream(StreamEvent::<R>::Sent),
{
}

/// A report on metadata is that there is none exactly where the text is empty;
/// else it has the members of the JSON object, each of them once, or the message
/// of the error.
pub proof fn law_reports(report: MetadataReport, text: Seq<char>)
    requires
        is_report(report, text),
    ensures
        report is Absent <==> text.len() == 0,
        text.len() > 0 ==> (report is Parsed <==> parsed_metadata(text) is Ok),
        report matches MetadataReport::Malformed(message) ==> parsed_metadata(text) is Err
            && message@ == parsed_metadata(text)->Err_0,
        report matches MetadataReport::Parsed(entries) ==> {
            let members = parsed_metadata(text)->Ok_0;
            &&& forall|i: int|
                0 <= i < entries@.len() ==> members.contains_key((#[trigger] entries@[i]).0@)
                    && members[entries@[i].0@] == entries@[i].1@
            &&& forall|i: int, j: int|
                0 <= i < j < entries@.len() ==> (#[trigger] entries@[i]).0@ != (
                #[trigger] entries@[j]).0@
            &&& forall|key: Seq<char>| #[trigger]
                members.contains_key(key) ==> exists|i: int|
                    0 <= i < entries@.len() && (#[trigger] entries@[i]).0@ == key
        },
{
    if let MetadataReport::Parsed(entries) = report {
        assert(is_outcome(Ok(entries), parsed_metadata(text)));
        assert(lists_members(entries@, parsed_metadata(text)->Ok_0));
    }
}

/// The id of a stream has 36 characters: hyphens at four places, the version 4,
/// one of four digits for the variant, and else hexadecimal digits.
pub proof fn law_form_of_stream_ids(text: Seq<char>, i: int)
    requires
        is_uuid_text(text),
        0 <= i < 36,
    ensures
        text.len() == 36,
        text[8] == '-' && text[13] == '-' && text[18] == '-' && text[23] == '-',
        text[14] == '4',
        text[19] == '8' || text[19] == '9' || text[19] == 'a' || text[19] == 'b',
        i != 8 && i != 13 && i != 18 && i != 23 ==> '0' <= text[i] <= '9' || 'a' <= text[i] <= 'f',
{
    assert(crate::chance::is_uuid_place(text[i], i));
    assert(crate::chance::is_uuid_place(text[8], 8));
    assert(crate::chance::is_uuid_place(text[13], 13));
    assert(crate::chance::is_uuid_place(text[18], 18));
    assert(crate::chance::is_uuid_place(text[23], 23));
    assert(crate::chance::is_uuid_place(text[14], 14));
    assert(crate::chance::is_uuid_place(text[19], 19));
}

/// What can happen to a router.
pub enum RouterEvent {
    Registered { info: ServiceInfoView },
    Connected { id: Seq<char>, client: u64 },
    Reconnected { id: Seq<char>, client: u64 },
    Checked { id: Seq<char>, healthy: bool },
    CheckStarted { id: Seq<char>, handle: u64 },
    ChecksGivenUp,
    Routed { msg: MessageView },
}

/// The router after one event.
pub open spec fn after_event(router: RouterView, event: RouterEvent) -> RouterView {
    match event {
        RouterEvent::Registered { info } => router.registered(info),
        RouterEvent::Connected { id, client } => router.connected(id, client),
        RouterEvent::Reconnected { id, client } => router.reconnected(id, client),
        RouterEvent::Checked { id, healthy } => router.with_health(id, healthy),
        RouterEvent::CheckStarted { id, handle } => router.with_health_check(id, handle),
        RouterEvent::ChecksGivenUp => router.without_health_checks(),
        RouterEvent::Routed { msg } => router.after_route(msg),
    }
}

/// A new router after events, one after the other.
pub open spec fn after_events(history: Seq<RouterEvent>) -> RouterView
    decreases history.len(),
{
    if history.len() == 0 {
        RouterView::initial()
    } else {
        after_event(after_events(history.drop_last()), history.last())
    }
}

/// The event is the registration of the service `id`, with the command `cmd`.
pub open spec fn registers(event: RouterEvent, id: Seq<char>, cmd: Seq<char>) -> bool {
    event matches RouterEvent::Registered { info } && info.service_id == id
        && info.commands.contains(cmd)
}

/// Whatever happened to a router, the services in the list of a command are
/// those that registered with that command, and no others.
pub proof fn law_lists_hold_who_registered(
    history: Seq<RouterEvent>,
    cmd: Seq<char>,
    id: Seq<char>,
)
    ensures
        (after_events(history).cmd_routes.contains_key(cmd)
            && after_events(history).cmd_routes[cmd].contains(id)) <==> exists|i: int|
            0 <= i < history.len() && registers(#[trigger] history[i], id, cmd),
    decreases history.len(),
{
    if history.len() > 0 {
        let last = history.len() - 1;
        let earlier = history.drop_last();
        let before = after_events(earlier);
        law_lists_hold_who_registered(earlier, cmd, id);
        if let RouterEvent::Registered { info } = history.last() {
            law_registration_adds_only_itself(before, info, cmd, id);
        }
        if exists|i: int| 0 <= i < earlier.len() && registers(#[trigger] earlier[i], id, cmd) {
            let i = choose|i: int|
                0 <= i < earlier.len() && registers(#[trigger] earlier[i], id, cmd);
            assert(registers(history[i], id, cmd));
        }
        if exists|i: int| 0 <= i < history.len() && registers(#[trigger] history[i], id, cmd) {
            let i = choose|i: int|
                0 <= i < history.len() && registers(#[trigger] history[i], id, cmd);
            assert(i < last ==> registers(earlier[i], id, cmd));
        }
        assert(registers(history.last(), id, cmd) ==> registers(history[last], id, cmd));
    }
}

} // verus!
