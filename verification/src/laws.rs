//! What holds of the gateway as a whole.

use vstd::prelude::*;

use crate::gateway::{
    health_answer, in_order, is_open, opened_less_closed, opens_last, step_in_order, GatewayView,
    StreamStep,
};
use crate::model::RouterView;
use crate::router::{are_plans, is_plan, HealthCheckPlan};
use crate::types::{
    MessageView, RoutingStrategy, ServiceInfoView, CODE_NOT_FOUND, CODE_UNAVAILABLE, NOT_SERVING,
    SERVICE_UNKNOWN, SERVING,
};

verus! {

/// A router that knows of no service is well-formed.
pub proof fn law_initial_is_wf()
    ensures
        RouterView::initial().wf(),
{
}

/// A registration keeps a router well-formed.
pub proof fn law_registration_keeps_wf(router: RouterView, info: ServiceInfoView)
    requires
        router.wf(),
    ensures
        router.registered(info).wf(),
{
    let after = router.registered(info);
    assert forall|cmd: Seq<char>| #[trigger]
        after.cmd_routes.contains_key(cmd) implies after.is_route_list(after.cmd_routes[cmd]) by {
        assert(router.cmd_routes.contains_key(cmd) ==> router.is_route_list(
            router.cmd_routes[cmd],
        ));
    }
    assert forall|id: Seq<char>| #[trigger] after.is_healthy(id) implies after.clients.contains_key(
        id,
    ) by {
        assert(router.is_healthy(id));
    }
}

/// A connection to a registered service keeps a router well-formed.
pub proof fn law_connection_keeps_wf(router: RouterView, id: Seq<char>, client: u64)
    requires
        router.wf(),
        router.services.contains_key(id),
    ensures
        router.connected(id, client).wf(),
        router.reconnected(id, client).wf(),
{
    assert forall|other: Seq<char>|
        #![trigger router.connected(id, client).is_healthy(other)]
        router.connected(id, client).is_healthy(other) implies router.connected(
        id,
        client,
    ).clients.contains_key(other) by {
        assert(other != id ==> router.is_healthy(other));
    }
    assert forall|other: Seq<char>|
        #![trigger router.reconnected(id, client).is_healthy(other)]
        router.reconnected(id, client).is_healthy(other) implies router.reconnected(
        id,
        client,
    ).clients.contains_key(other) by {
        assert(router.is_healthy(other));
    }
    assert(forall|list: Seq<Seq<char>>| #[trigger]
        router.connected(id, client).is_route_list(list) == router.is_route_list(list));
    assert(forall|list: Seq<Seq<char>>| #[trigger]
        router.reconnected(id, client).is_route_list(list) == router.is_route_list(list));
}

/// Routing a message keeps a router well-formed.
pub proof fn law_routing_keeps_wf(router: RouterView, msg: MessageView)
    requires
        router.wf(),
    ensures
        router.after_route(msg).wf(),
{
    let after = router.after_route(msg);
    assert(forall|id: Seq<char>| #[trigger] after.is_healthy(id) == router.is_healthy(id));
    assert(forall|list: Seq<Seq<char>>| #[trigger]
        after.is_route_list(list) == router.is_route_list(list));
}

/// The outcome of a health check keeps a router well-formed: the service is
/// registered, and is found healthy only over a connection to it.
pub proof fn law_health_keeps_wf(router: RouterView, id: Seq<char>, healthy: bool)
    requires
        router.wf(),
        router.services.contains_key(id),
        healthy ==> router.clients.contains_key(id),
    ensures
        router.with_health(id, healthy).wf(),
{
    let after = router.with_health(id, healthy);
    assert forall|other: Seq<char>| #[trigger]
        after.is_healthy(other) implies after.clients.contains_key(other) by {
        assert(other != id ==> router.is_healthy(other));
    }
    assert(forall|list: Seq<Seq<char>>| #[trigger]
        after.is_route_list(list) == router.is_route_list(list));
}

/// Starting a health check of a registered service, and giving all of them up,
/// keep a router well-formed.
pub proof fn law_health_checks_keep_wf(router: RouterView, id: Seq<char>, handle: u64)
    requires
        router.wf(),
    ensures
        router.services.contains_key(id) ==> router.with_health_check(id, handle).wf(),
        router.without_health_checks().wf(),
{
    let with = router.with_health_check(id, handle);
    let without = router.without_health_checks();
    assert(forall|other: Seq<char>| #[trigger]
        with.is_healthy(other) == router.is_healthy(other));
    assert(forall|other: Seq<char>| #[trigger]
        without.is_healthy(other) == router.is_healthy(other));
    assert(forall|list: Seq<Seq<char>>| #[trigger]
        with.is_route_list(list) == router.is_route_list(list));
    assert(forall|list: Seq<Seq<char>>| #[trigger]
        without.is_route_list(list) == router.is_route_list(list));
}

/// Registering a service again, just as it is, changes nothing.
pub proof fn law_registration_is_idempotent(router: RouterView, info: ServiceInfoView)
    ensures
        router.registered(info).registered(info) == router.registered(info),
{
    let once = router.registered(info);
    assert forall|cmd: Seq<char>| #[trigger] once.cmd_routes.contains_key(cmd) implies once.registered(
        info,
    ).cmd_routes[cmd] == once.cmd_routes[cmd] by {
        let list = router.candidates(cmd);
        assert(list.push(info.service_id)[list.len() as int] == info.service_id);
    }
    assert(once.registered(info) =~= once);
}

/// A registered service is in the list of each of its commands; who came first
/// stays first in every list; and the lists of other commands stay as they are.
pub proof fn law_registration_extends_routes(
    router: RouterView,
    info: ServiceInfoView,
    cmd: Seq<char>,
)
    ensures
        info.commands.contains(cmd) ==> router.registered(info).candidates(cmd).contains(
            info.service_id,
        ),
        router.candidates(cmd).is_prefix_of(router.registered(info).candidates(cmd)),
        !info.commands.contains(cmd) ==> router.registered(info).candidates(cmd)
            == router.candidates(cmd),
{
    let list = router.candidates(cmd);
    assert(list.push(info.service_id)[list.len() as int] == info.service_id);
}

/// A candidate that is healthy is one of the healthy candidates, and each of
/// those is a candidate and healthy.
pub proof fn law_healthy_candidates(router: RouterView, cmd: Seq<char>)
    ensures
        forall|id: Seq<char>| #[trigger]
            router.healthy_candidates(cmd).contains(id) <==> router.candidates(cmd).contains(id)
                && router.is_healthy(id),
{
    let all = router.candidates(cmd);
    let healthy = router.healthy_candidates(cmd);
    let test = router.health_filter();
    assert forall|id: Seq<char>| #[trigger]
        healthy.contains(id) <==> all.contains(id) && router.is_healthy(id) by {
        if healthy.contains(id) {
            let i = choose|i: int| 0 <= i < healthy.len() && healthy[i] == id;
            all.lemma_filter_pred(test, i);
            lemma_filter_is_part(all, test, i);
        }
        if all.contains(id) && router.is_healthy(id) {
            let i = choose|i: int| 0 <= i < all.len() && all[i] == id;
            assert(test(all[i]));
            all.lemma_filter_contains(test, i);
        }
    }
}

/// What a filter keeps was there before.
proof fn lemma_filter_is_part<A>(list: Seq<A>, test: spec_fn(A) -> bool, i: int)
    requires
        0 <= i < list.filter(test).len(),
    ensures
        list.contains(list.filter(test)[i]),
    decreases list.len(),
{
    reveal(Seq::filter);
    if list.len() > 0 {
        let rest = list.drop_last();
        if i < rest.filter(test).len() {
            lemma_filter_is_part(rest, test, i);
            let j = choose|j: int| 0 <= j < rest.len() && rest[j] == rest.filter(test)[i];
            assert(list[j] == rest.filter(test)[i]);
        } else {
            assert(list[list.len() - 1] == list.filter(test)[i]);
        }
    }
}

/// A target that a message names is where it goes, whatever the tables hold.
pub proof fn law_target_comes_first(router: RouterView, msg: MessageView, draw: int)
    requires
        msg.target_service.len() > 0,
    ensures
        router.route(msg, draw) == Some(msg.target_service),
{
}

/// A message that names no target goes to a service that supports its command,
/// and to none exactly where no service does. It goes to a healthy one where
/// there is one, and else to the one that came first.
pub proof fn law_route_follows_health(router: RouterView, msg: MessageView, draw: int)
    requires
        msg.target_service.len() == 0,
        router.can_draw(msg.cmd, draw),
    ensures
        router.route(msg, draw) is None <==> router.candidates(msg.cmd).len() == 0,
        router.route(msg, draw) is Some ==> router.candidates(msg.cmd).contains(
            router.route(msg, draw)->0,
        ),
        (exists|id: Seq<char>| #[trigger]
            router.candidates(msg.cmd).contains(id) && router.is_healthy(id)) ==> router.route(
            msg,
            draw,
        ) is Some && router.is_healthy(router.route(msg, draw)->0),
        router.candidates(msg.cmd).len() > 0 && (forall|id: Seq<char>| #[trigger]
            router.candidates(msg.cmd).contains(id) ==> !router.is_healthy(id)) ==> router.route(
            msg,
            draw,
        ) == Some(router.candidates(msg.cmd)[0]),
{
    let all = router.candidates(msg.cmd);
    let healthy = router.healthy_candidates(msg.cmd);
    law_healthy_candidates(router, msg.cmd);
    if all.len() == 0 {
        assert(!exists|id: Seq<char>| #[trigger] all.contains(id) && router.is_healthy(id));
    } else if healthy.len() == 0 {
        assert(all.contains(all[0]));
        assert forall|id: Seq<char>| #[trigger] all.contains(id) implies !router.is_healthy(id) by {
            assert(!healthy.contains(id));
        }
    } else {
        let turn = router.turn(msg.cmd);
        assert(healthy.contains(healthy[0]));
        assert(healthy.contains(healthy[turn]));
        assert(healthy.contains(healthy[draw]));
    }
}

/// Chance has a part in a route only under the random strategy.
pub proof fn law_only_random_draws(router: RouterView, msg: MessageView, draw: int, other: int)
    requires
        router.strategy_for(msg.cmd) != RoutingStrategy::Random,
    ensures
        router.route(msg, draw) == router.route(msg, other),
{
}

/// A filter keeps nothing twice that was not there twice.
pub(crate) proof fn lemma_filter_keeps_distinct<A>(list: Seq<A>, test: spec_fn(A) -> bool)
    requires
        list.no_duplicates(),
    ensures
        list.filter(test).no_duplicates(),
    decreases list.len(),
{
    reveal(Seq::filter);
    if list.len() > 0 {
        let rest = list.drop_last();
        lemma_filter_keeps_distinct(rest, test);
        assert forall|i: int| 0 <= i < rest.filter(test).len() implies rest.filter(test)[i]
            != list.last() by {
            lemma_filter_is_part(rest, test, i);
            let j = choose|j: int| 0 <= j < rest.len() && rest[j] == rest.filter(test)[i];
            assert(list[j] != list[list.len() - 1]);
        }
    }
}

/// Counting round: a number below twice `len` is itself, or itself less `len`.
pub(crate) proof fn lemma_count_round(number: int, len: int)
    requires
        0 <= number < 2 * len,
    ensures
        number % len == (if number < len {
            number
        } else {
            number - len
        }),
{
    if number < len {
        vstd::arithmetic::div_mod::lemma_small_mod(number as nat, len as nat);
    } else {
        vstd::arithmetic::div_mod::lemma_fundamental_div_mod_converse(
            number,
            len,
            1,
            number - len,
        );
    }
}

/// The turn after `n` messages, within one round: it moved on by `n`, and
/// nothing else of the router changed.
pub proof fn law_turn_moves_on(router: RouterView, msg: MessageView, n: nat)
    requires
        router.takes_turn(msg),
        n <= router.healthy_candidates(msg.cmd).len() <= u64::MAX,
    ensures
        ({
            let after = router.after_routes(msg, n);
            let len = router.healthy_candidates(msg.cmd).len() as int;
            &&& after == (RouterView { turns: after.turns, ..router })
            &&& forall|cmd: Seq<char>|
                cmd != msg.cmd ==> #[trigger] after.turns.get(cmd) == router.turns.get(cmd)
            &&& after.takes_turn(msg)
            &&& after.healthy_candidates(msg.cmd) == router.healthy_candidates(msg.cmd)
            &&& after.turn(msg.cmd) == (router.turn(msg.cmd) + n) % len
        }),
    decreases n,
{
    let len = router.healthy_candidates(msg.cmd).len() as int;
    let start = router.turn(msg.cmd);
    assert(0 <= start < len);
    let after = router.after_routes(msg, n);
    if n == 0 {
        lemma_count_round(start, len);
    } else {
        let last = router.after_routes(msg, (n - 1) as nat);
        law_turn_moves_on(router, msg, (n - 1) as nat);
        lemma_count_round(start + n - 1, len);
        lemma_count_round(start + n, len);
        lemma_count_round(last.turn(msg.cmd) + 1, len);
        assert(after.health_filter() =~= last.health_filter());
        let next = (last.turn(msg.cmd) + 1) % len;
        lemma_count_round(next, len);
        assert(after.turns[msg.cmd] == next);
        assert forall|cmd: Seq<char>| cmd != msg.cmd implies #[trigger] after.turns.get(cmd)
            == router.turns.get(cmd) by {
            assert(last.turns.get(cmd) == router.turns.get(cmd));
        }
    }
    assert(after.health_filter() =~= router.health_filter());
}

/// Healthy services are picked in turn: of as many messages with one command as
/// there are healthy services for it, no two go to the same one, as long as
/// nothing else happens.
pub proof fn law_turns_are_distinct(
    router: RouterView,
    msg: MessageView,
    i: nat,
    j: nat,
    draw_i: int,
    draw_j: int,
)
    requires
        router.wf(),
        router.takes_turn(msg),
        i < j < router.healthy_candidates(msg.cmd).len() <= u64::MAX,
    ensures
        ({
            let first = router.after_routes(msg, i).route(msg, draw_i);
            let second = router.after_routes(msg, j).route(msg, draw_j);
            &&& first is Some && router.healthy_candidates(msg.cmd).contains(first->0)
            &&& second is Some && router.healthy_candidates(msg.cmd).contains(second->0)
            &&& first != second
        }),
{
    let healthy = router.healthy_candidates(msg.cmd);
    let len = healthy.len() as int;
    let start = router.turn(msg.cmd);
    assert(0 <= start < len);
    law_turn_moves_on(router, msg, i);
    law_turn_moves_on(router, msg, j);
    lemma_count_round(start + i, len);
    lemma_count_round(start + j, len);
    lemma_has_candidates(router, msg.cmd);
    lemma_filter_keeps_distinct(router.candidates(msg.cmd), router.health_filter());
}

/// Nobody is left out: within one round each healthy service that supports the
/// command gets a message. Then the round starts over.
pub proof fn law_every_one_has_a_turn(
    router: RouterView,
    msg: MessageView,
    id: Seq<char>,
    draw: int,
)
    requires
        router.takes_turn(msg),
        router.healthy_candidates(msg.cmd).len() <= u64::MAX,
    ensures
        router.healthy_candidates(msg.cmd).contains(id) ==> exists|i: nat|
            i < router.healthy_candidates(msg.cmd).len() && (#[trigger] router.after_routes(
                msg,
                i,
            )).route(msg, draw) == Some(id),
        router.after_routes(msg, router.healthy_candidates(msg.cmd).len()).turn(msg.cmd)
            == router.turn(msg.cmd),
{
    let healthy = router.healthy_candidates(msg.cmd);
    let len = healthy.len() as int;
    let start = router.turn(msg.cmd);
    assert(0 <= start < len);
    lemma_has_candidates(router, msg.cmd);
    law_turn_moves_on(router, msg, healthy.len());
    lemma_count_round(start + len, len);
    if healthy.contains(id) {
        let place = choose|k: int| 0 <= k < healthy.len() && healthy[k] == id;
        let i: nat = (if place >= start {
            place - start
        } else {
            place - start + len
        }) as nat;
        law_turn_moves_on(router, msg, i);
        lemma_count_round(start + i, len);
        assert(router.after_routes(msg, i).route(msg, draw) == Some(id));
    }
}

/// Where there are healthy candidates there are candidates.
pub(crate) proof fn lemma_has_candidates(router: RouterView, cmd: Seq<char>)
    requires
        router.healthy_candidates(cmd).len() > 0,
    ensures
        router.candidates(cmd).len() > 0,
{
    lemma_filter_is_part(router.candidates(cmd), router.health_filter(), 0);
}

/// A message is refused in two cases: nobody supports its command and it names
/// no target, or there is no connection to the service that it goes to. Each
/// has its own status.
pub proof fn law_refusals(router: RouterView, msg: MessageView, draw: int)
    ensures
        ({
            let route = router.route(msg, draw);
            let dispatch = router.dispatched(msg, route);
            &&& (dispatch is Err && dispatch->Err_0.code == CODE_NOT_FOUND)
                <==> (msg.target_service.len() == 0 && router.candidates(msg.cmd).len() == 0)
            &&& (dispatch is Err && dispatch->Err_0.code == CODE_UNAVAILABLE)
                <==> (route is Some && !router.clients.contains_key(route->0))
            &&& dispatch is Err ==> dispatch->Err_0.code == CODE_NOT_FOUND
                || dispatch->Err_0.code == CODE_UNAVAILABLE
        }),
{
}

/// A message that is sent is the message that came, but for the target, which
/// is the service that it goes to, over the connection to that service.
pub proof fn law_message_is_kept(router: RouterView, msg: MessageView, draw: int)
    ensures
        router.dispatched(msg, router.route(msg, draw)) matches Ok(dispatch) ==> {
            &&& router.route(msg, draw) == Some(dispatch.message.target_service)
            &&& dispatch.message.addressed_to(msg.target_service) == msg
            &&& router.clients.contains_key(dispatch.message.target_service)
            &&& dispatch.client == router.clients[dispatch.message.target_service]
        },
{
}

/// Once a service registered and a connection to it was made, a message with
/// one of its commands is not refused: it is sent to a healthy service that
/// supports the command, and where it names the service, to that one.
pub proof fn law_registered_service_is_reachable(
    router: RouterView,
    info: ServiceInfoView,
    client: u64,
    msg: MessageView,
    draw: int,
)
    requires
        router.wf(),
        info.commands.contains(msg.cmd),
        router.registered(info).connected(info.service_id, client).can_draw(msg.cmd, draw),
    ensures
        ({
            let after = router.registered(info).connected(info.service_id, client);
            let dispatch = after.dispatched(msg, after.route(msg, draw));
            &&& msg.target_service.len() == 0 ==> {
                &&& dispatch is Ok
                &&& !dispatch->Ok_0.known_unhealthy
                &&& after.candidates(msg.cmd).contains(dispatch->Ok_0.message.target_service)
            }
            &&& msg.target_service == info.service_id && info.service_id.len() > 0 ==> {
                &&& dispatch is Ok
                &&& dispatch->Ok_0.client == client
                &&& !dispatch->Ok_0.known_unhealthy
            }
        }),
{
    let listed = router.registered(info);
    let after = listed.connected(info.service_id, client);
    law_registration_keeps_wf(router, info);
    law_connection_keeps_wf(listed, info.service_id, client);
    law_registration_extends_routes(router, info, msg.cmd);
    assert(after.candidates(msg.cmd).contains(info.service_id));
    assert(after.is_healthy(info.service_id));
    if msg.target_service.len() == 0 {
        law_route_follows_health(after, msg, draw);
    }
}

/// After a service could not be reached, messages that name no target go to
/// another service, as long as a healthy one supports the command.
pub proof fn law_failover(
    router: RouterView,
    failed: Seq<char>,
    other: Seq<char>,
    msg: MessageView,
    draw: int,
)
    requires
        other != failed,
        router.candidates(msg.cmd).contains(other),
        router.is_healthy(other),
        msg.target_service.len() == 0,
        router.with_health(failed, false).can_draw(msg.cmd, draw),
    ensures
        ({
            let after = router.with_health(failed, false);
            &&& after.route(msg, draw) is Some
            &&& after.route(msg, draw)->0 != failed
            &&& after.is_healthy(after.route(msg, draw)->0)
        }),
{
    let after = router.with_health(failed, false);
    assert(after.candidates(msg.cmd).contains(other));
    assert(after.is_healthy(other));
    law_route_follows_health(after, msg, draw);
}

/// A service that is found healthy again is a choice again for each of its
/// commands.
pub proof fn law_recovery(router: RouterView, id: Seq<char>, cmd: Seq<char>)
    requires
        router.candidates(cmd).contains(id),
    ensures
        router.with_health(id, true).healthy_candidates(cmd).contains(id),
{
    let after = router.with_health(id, true);
    law_healthy_candidates(after, cmd);
    assert(after.candidates(cmd).contains(id));
    assert(after.is_healthy(id));
}

/// One health check as a whole, from the router that asks (`asked`) to the
/// router that is told the outcome (`told`), with the status that the service
/// gives when it is asked: the service is healthy exactly where there was a
/// connection to it and it answered that it is serving, and nothing else
/// changes. Without a connection it is not healthy.
pub proof fn law_one_check(asked: RouterView, told: RouterView, id: Seq<char>, answer: Option<i32>)
    ensures
        ({
            let after = told.with_health(id, asked.heard(id, answer) == Some(SERVING));
            &&& after.health_status.contains_key(id)
            &&& after.health_status[id] == (asked.clients.contains_key(id) && answer == Some(
                SERVING,
            ))
            &&& !asked.clients.contains_key(id) ==> after.is_known_unhealthy(id)
            &&& forall|other: Seq<char>|
                other != id ==> #[trigger] after.health_status.get(other)
                    == told.health_status.get(other)
            &&& after == (RouterView { health_status: after.health_status, ..told })
        }),
{
}

/// Of two checks of a service only the later one counts.
pub proof fn law_last_check_counts(router: RouterView, id: Seq<char>, first: bool, second: bool)
    ensures
        router.with_health(id, first).with_health(id, second) == router.with_health(id, second),
{
    assert(router.with_health(id, first).with_health(id, second) =~= router.with_health(
        id,
        second,
    ));
}

/// The answer to a question for the health of a service agrees with the way
/// messages are routed: a service is serving exactly where it counts as healthy,
/// and unknown exactly where it never registered.
pub proof fn law_health_answer_agrees(router: RouterView, id: Seq<char>)
    requires
        router.wf(),
    ensures
        health_answer(router, id).0 == SERVING <==> router.is_healthy(id),
        health_answer(router, id).0 == SERVICE_UNKNOWN <==> !router.services.contains_key(id),
        health_answer(router, id).0 == NOT_SERVING <==> router.services.contains_key(id)
            && !router.is_healthy(id),
{
}

/// `after` has every service, every connection and every health of `before`, and
/// every list of routes, with what was added to it at its end.
pub open spec fn remembers(before: RouterView, after: RouterView) -> bool {
    &&& before.services.dom().subset_of(after.services.dom())
    &&& before.clients.dom().subset_of(after.clients.dom())
    &&& before.health_status.dom().subset_of(after.health_status.dom())
    &&& forall|cmd: Seq<char>| #[trigger]
        before.candidates(cmd).is_prefix_of(after.candidates(cmd))
}

/// Nothing that happens makes a router forget a service, a connection or a
/// route.
pub proof fn law_nothing_is_forgotten(
    router: RouterView,
    info: ServiceInfoView,
    id: Seq<char>,
    handle: u64,
    healthy: bool,
    msg: MessageView,
)
    ensures
        remembers(router, router.registered(info)),
        remembers(router, router.connected(id, handle)),
        remembers(router, router.reconnected(id, handle)),
        remembers(router, router.with_health(id, healthy)),
        remembers(router, router.with_health_check(id, handle)),
        remembers(router, router.without_health_checks()),
        remembers(router, router.after_route(msg)),
{
    assert forall|cmd: Seq<char>| #[trigger]
        router.candidates(cmd).is_prefix_of(router.registered(info).candidates(cmd)) by {
        law_registration_extends_routes(router, info, cmd);
    }
}

/// `after` picks services by the same strategies as `before`.
pub open spec fn same_strategies(before: RouterView, after: RouterView) -> bool {
    &&& after.routing_strategy == before.routing_strategy
    &&& after.default_strategy == before.default_strategy
}

/// Nothing that happens changes how services are picked; a new router uses
/// `RoundRobin` for every command.
pub proof fn law_strategies_are_kept(
    router: RouterView,
    info: ServiceInfoView,
    id: Seq<char>,
    handle: u64,
    healthy: bool,
    msg: MessageView,
)
    ensures
        forall|cmd: Seq<char>| #[trigger]
            RouterView::initial().strategy_for(cmd) == RoutingStrategy::RoundRobin,
        same_strategies(router, router.registered(info)),
        same_strategies(router, router.connected(id, handle)),
        same_strategies(router, router.reconnected(id, handle)),
        same_strategies(router, router.with_health(id, healthy)),
        same_strategies(router, router.with_health_check(id, handle)),
        same_strategies(router, router.without_health_checks()),
        same_strategies(router, router.after_route(msg)),
{
}

/// A router that remembers another remembers all that the other remembers.
pub proof fn law_remembering_is_transitive(first: RouterView, second: RouterView, third: RouterView)
    requires
        remembers(first, second),
        remembers(second, third),
    ensures
        remembers(first, third),
{
    assert forall|cmd: Seq<char>| #[trigger]
        first.candidates(cmd).is_prefix_of(third.candidates(cmd)) by {
        assert(first.candidates(cmd).is_prefix_of(second.candidates(cmd)));
        assert(second.candidates(cmd).is_prefix_of(third.candidates(cmd)));
    }
}

/// Whatever happens between a question to a service and what comes of it, the
/// outcome keeps the router well-formed: of a connection attempt for a service
/// that registered, and of a message or a health check that was sent over a
/// connection.
pub proof fn law_late_outcomes_keep_wf(
    before: RouterView,
    after: RouterView,
    id: Seq<char>,
    client: u64,
    healthy: bool,
)
    requires
        before.wf(),
        after.wf(),
        remembers(before, after),
    ensures
        before.services.contains_key(id) ==> after.connected(id, client).wf(),
        before.clients.contains_key(id) ==> after.with_health(id, healthy).wf(),
{
    if before.services.contains_key(id) {
        assert(after.services.contains_key(id));
        law_connection_keeps_wf(after, id, client);
    }
    if before.clients.contains_key(id) {
        assert(after.clients.contains_key(id));
        law_health_keeps_wf(after, id, healthy);
    }
}

/// The task that checks the health of a service is never displaced by another
/// one when the service registers: the registration gave the former task up.
pub proof fn law_registration_gives_up_the_check(
    router: RouterView,
    info: ServiceInfoView,
    client: u64,
)
    ensures
        router.registered(info).health_check_handles.get(info.service_id) is None,
        router.registered(info).connected(info.service_id, client).health_check_handles.get(
            info.service_id,
        ) is None,
{
}

/// When health checks start anew, every task that did them is cancelled, by the
/// plan for its service, and none is left.
pub proof fn law_restart_cancels_every_check(
    router: RouterView,
    plans: Seq<HealthCheckPlan>,
    id: Seq<char>,
)
    requires
        router.wf(),
        are_plans(router, plans),
    ensures
        router.without_health_checks().health_check_handles.is_empty(),
        router.health_check_handles.contains_key(id) ==> exists|i: int|
            0 <= i < plans.len() && (#[trigger] plans[i]).service_id@ == id && plans[i].cancel
                == Some(router.health_check_handles[id]),
{
    assert(router.without_health_checks().health_check_handles =~= Map::empty());
    if router.health_check_handles.contains_key(id) {
        assert(router.services.contains_key(id));
        let i = choose|i: int| 0 <= i < plans.len() && (#[trigger] plans[i]).service_id@ == id;
        assert(is_plan(router, plans[i]));
    }
}

/// Closing a stream undoes its opening, where its id was free.
pub proof fn law_closing_undoes_opening(gateway: GatewayView, id: Seq<char>, sender: u64)
    requires
        !gateway.streams.contains_key(id),
    ensures
        gateway.with_stream(id, sender).without_stream(id) == gateway,
        gateway.with_stream(id, sender).streams.get(id) == Some(sender),
{
    assert(gateway.with_stream(id, sender).without_stream(id) =~= gateway);
}

/// Opening or closing a stream leaves the entry of every other stream, and the
/// router, as they were.
pub proof fn law_streams_are_apart(
    gateway: GatewayView,
    id: Seq<char>,
    sender: u64,
    other: Seq<char>,
)
    requires
        other != id,
    ensures
        gateway.with_stream(id, sender).streams.get(other) == gateway.streams.get(other),
        gateway.without_stream(id).streams.get(other) == gateway.streams.get(other),
        gateway.with_stream(id, sender).router == gateway.router,
        gateway.without_stream(id).router == gateway.router,
{
}

/// Whatever streams were opened and closed, the table holds those that are
/// open, each with the sender that it was opened with last, and no others.
pub proof fn law_table_holds_open_streams(
    gateway: GatewayView,
    history: Seq<StreamStep>,
    id: Seq<char>,
)
    requires
        gateway.streams.is_empty(),
    ensures
        gateway.after_steps(history).streams.contains_key(id) <==> is_open(history, id),
        is_open(history, id) ==> exists|i: int|
            opens_last(history, i, id) && gateway.after_steps(history).streams[id] == (
            #[trigger] history[i])->sender,
        gateway.after_steps(history).router == gateway.router,
    decreases history.len(),
{
    if history.len() > 0 {
        let last = history.len() - 1;
        let earlier = history.drop_last();
        let before = gateway.after_steps(earlier);
        law_table_holds_open_streams(gateway, earlier, id);
        if is_open(earlier, id) {
            let i = choose|i: int|
                opens_last(earlier, i, id) && before.streams[id] == (#[trigger] earlier[i])->sender;
            assert(history[i] == earlier[i]);
            if history[last].id() != id {
                assert forall|j: int| i < j < history.len() implies (#[trigger] history[j]).id()
                    != id by {
                    assert(j < last ==> earlier[j].id() != id);
                }
                assert(opens_last(history, i, id));
            }
        }
        if is_open(history, id) {
            let i = choose|i: int| opens_last(history, i, id);
            if i < last {
                assert(earlier[i] == history[i]);
                assert forall|j: int| i < j < earlier.len() implies (#[trigger] earlier[j]).id()
                    != id by {
                    assert(history[j].id() != id);
                }
                assert(history[last].id() != id);
                assert(opens_last(earlier, i, id));
            }
        }
        if history[last] is Opened && history[last].id() == id {
            assert(opens_last(history, last, id));
        }
    } else {
        assert(!gateway.streams.contains_key(id));
    }
}

/// As long as every stream was opened under an id that was free, and closed
/// while it was open, the table has as many entries as there are streams that
/// were opened and not closed.
pub proof fn law_open_streams_are_counted(gateway: GatewayView, history: Seq<StreamStep>)
    requires
        gateway.streams.is_empty(),
        in_order(history),
    ensures
        gateway.after_steps(history).streams.dom().finite(),
        gateway.after_steps(history).streams.len() == opened_less_closed(history),
    decreases history.len(),
{
    if history.len() > 0 {
        let last = history.len() - 1;
        let earlier = history.drop_last();
        assert forall|i: int| 0 <= i < earlier.len() implies step_in_order(
            earlier,
            #[trigger] earlier[i],
            i,
        ) by {
            assert(step_in_order(history, history[i], i));
            assert(history.take(i) =~= earlier.take(i));
        }
        law_open_streams_are_counted(gateway, earlier);
        assert(step_in_order(history, history[last], last));
        assert(history.take(last) =~= earlier);
        law_table_holds_open_streams(gateway, earlier, history[last].id());
    } else {
        assert(gateway.streams =~= Map::empty());
    }
}

} // verus!
