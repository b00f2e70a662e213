//! The router as a mathematical object: what it holds, how it routes, and what
//! each event changes.

use vstd::prelude::*;

use crate::tables::list_at;
use crate::types::{
    MessageView, RoutingStrategy, ServiceInfoView, StatusView, CODE_NOT_FOUND, CODE_UNAVAILABLE,
};

verus! {

/// A list of services with `id` in it: the list itself where it has `id`, and
/// else the list with `id` at its end.
pub open spec fn joined(list: Seq<Seq<char>>, id: Seq<char>) -> Seq<Seq<char>> {
    if list.contains(id) {
        list
    } else {
        list.push(id)
    }
}

/// The routes after the service `id` joined the list of each of `commands`.
pub open spec fn routes_with(
    routes: Map<Seq<char>, Seq<Seq<char>>>,
    commands: Seq<Seq<char>>,
    id: Seq<char>,
) -> Map<Seq<char>, Seq<Seq<char>>> {
    Map::new(
        |cmd: Seq<char>| routes.contains_key(cmd) || commands.contains(cmd),
        |cmd: Seq<char>|
            if commands.contains(cmd) {
                joined(list_at(routes, cmd), id)
            } else {
                routes[cmd]
            },
    )
}

/// The interval in seconds at which a service wants its health checked; a
/// service that gives no positive number wants no checks.
pub open spec fn check_interval(interval_sec: i32) -> Option<u64> {
    if interval_sec > 0 {
        Some(interval_sec as u64)
    } else {
        None
    }
}

/// The service that a strategy picks of a list of healthy ones, where `turn` is
/// the index whose turn it is and `draw` is the index that chance gave.
pub open spec fn picked(
    strategy: RoutingStrategy,
    healthy: Seq<Seq<char>>,
    turn: int,
    draw: int,
) -> Seq<char> {
    match strategy {
        RoutingStrategy::Random => healthy[draw],
        RoutingStrategy::FirstAvailable => healthy[0],
        RoutingStrategy::RoundRobin => healthy[turn],
    }
}

/// A message on its way: the connection to send it on, the message to send, and
/// whether the service that it goes to is known to be unhealthy.
pub struct DispatchView {
    pub client: u64,
    pub message: MessageView,
    pub known_unhealthy: bool,
}

/// What a router holds.
#[verifier::ext_equal]
pub struct RouterView {
    /// The registered services, by their id.
    pub services: Map<Seq<char>, ServiceInfoView>,
    /// The services that support a command, in the order in which they came.
    pub cmd_routes: Map<Seq<char>, Seq<Seq<char>>>,
    /// The connection to a service.
    pub clients: Map<Seq<char>, u64>,
    /// Whether a service was healthy when last heard of.
    pub health_status: Map<Seq<char>, bool>,
    /// The strategy for a command, where it is not the default.
    pub routing_strategy: Map<Seq<char>, RoutingStrategy>,
    /// The strategy for every other command.
    pub default_strategy: RoutingStrategy,
    /// Whose turn it is next among the healthy services that support a command.
    pub turns: Map<Seq<char>, u64>,
    /// The task that checks the health of a service.
    pub health_check_handles: Map<Seq<char>, u64>,
}

/// How a router routes.
impl RouterView {
    /// The service is known to be healthy.
    pub open spec fn is_healthy(self, id: Seq<char>) -> bool {
        self.health_status.contains_key(id) && self.health_status[id]
    }

    /// The test for it.
    pub open spec fn health_filter(self) -> spec_fn(Seq<char>) -> bool {
        |id: Seq<char>| self.is_healthy(id)
    }

    /// The service is known not to be healthy.
    pub open spec fn is_known_unhealthy(self, id: Seq<char>) -> bool {
        self.health_status.contains_key(id) && !self.health_status[id]
    }

    /// The services that support a command.
    pub open spec fn candidates(self, cmd: Seq<char>) -> Seq<Seq<char>> {
        list_at(self.cmd_routes, cmd)
    }

    /// The healthy ones of them, in the same order.
    pub open spec fn healthy_candidates(self, cmd: Seq<char>) -> Seq<Seq<char>> {
        self.candidates(cmd).filter(self.health_filter())
    }

    /// The strategy for a command.
    pub open spec fn strategy_for(self, cmd: Seq<char>) -> RoutingStrategy {
        if self.routing_strategy.contains_key(cmd) {
            self.routing_strategy[cmd]
        } else {
            self.default_strategy
        }
    }

    /// The index into the healthy candidates of a command whose turn it is: the
    /// one that is kept, counted round where there are fewer by now.
    pub open spec fn turn(self, cmd: Seq<char>) -> int {
        let kept = if self.turns.contains_key(cmd) {
            self.turns[cmd] as int
        } else {
            0
        };
        kept % self.healthy_candidates(cmd).len() as int
    }

    /// A message takes a turn: it names no target, and a healthy service is
    /// picked for it in turn.
    pub open spec fn takes_turn(self, msg: MessageView) -> bool {
        &&& msg.target_service.len() == 0
        &&& self.healthy_candidates(msg.cmd).len() > 0
        &&& self.strategy_for(msg.cmd) == RoutingStrategy::RoundRobin
    }

    /// `draw` can come up by chance when the command is routed: an index into
    /// the healthy candidates, where there are any.
    pub open spec fn can_draw(self, cmd: Seq<char>, draw: int) -> bool {
        0 <= draw && (self.healthy_candidates(cmd).len() > 0 ==> draw
            < self.healthy_candidates(cmd).len())
    }

    /// The service that a message goes to. A target that the message names comes
    /// first; else a healthy candidate, as the strategy picks it; else the first
    /// candidate; else there is none.
    pub open spec fn route(self, msg: MessageView, draw: int) -> Option<Seq<char>> {
        if msg.target_service.len() > 0 {
            Some(msg.target_service)
        } else if self.candidates(msg.cmd).len() == 0 {
            None
        } else if self.healthy_candidates(msg.cmd).len() == 0 {
            Some(self.candidates(msg.cmd)[0])
        } else {
            Some(
                picked(
                    self.strategy_for(msg.cmd),
                    self.healthy_candidates(msg.cmd),
                    self.turn(msg.cmd),
                    draw,
                ),
            )
        }
    }

    /// What becomes of a message with the given route: it is sent, addressed to
    /// the service, on the connection to it; without a route or without a
    /// connection it is refused.
    pub open spec fn dispatched(self, msg: MessageView, route: Option<Seq<char>>) -> Result<
        DispatchView,
        StatusView,
    > {
        match route {
            None => Err(
                StatusView {
                    code: CODE_NOT_FOUND,
                    message: "No service found for the given command"@,
                },
            ),
            Some(id) => if self.clients.contains_key(id) {
                Ok(
                    DispatchView {
                        client: self.clients[id],
                        message: msg.addressed_to(id),
                        known_unhealthy: self.is_known_unhealthy(id),
                    },
                )
            } else {
                Err(
                    StatusView {
                        code: CODE_UNAVAILABLE,
                        message: "Service connection not available"@,
                    },
                )
            },
        }
    }
}

/// What each event changes.
impl RouterView {
    /// A router that knows of no service.
    pub open spec fn initial() -> RouterView {
        RouterView {
            services: Map::empty(),
            cmd_routes: Map::empty(),
            clients: Map::empty(),
            health_status: Map::empty(),
            routing_strategy: Map::empty(),
            default_strategy: RoutingStrategy::RoundRobin,
            turns: Map::empty(),
            health_check_handles: Map::empty(),
        }
    }

    /// A message was routed: where it took a turn, the next one is the turn of
    /// the healthy candidate behind, and of the first one behind the last.
    pub open spec fn after_route(self, msg: MessageView) -> RouterView {
        if self.takes_turn(msg) {
            let next = (self.turn(msg.cmd) + 1) % self.healthy_candidates(msg.cmd).len() as int;
            RouterView { turns: self.turns.insert(msg.cmd, next as u64), ..self }
        } else {
            self
        }
    }

    /// The same message was routed `n` times.
    pub open spec fn after_routes(self, msg: MessageView, n: nat) -> RouterView
        decreases n,
    {
        if n == 0 {
            self
        } else {
            self.after_routes(msg, (n - 1) as nat).after_route(msg)
        }
    }

    /// A service asked to be registered: it is known, it is in the list of each
    /// of its commands, and the task that checked its health is given up.
    pub open spec fn registered(self, info: ServiceInfoView) -> RouterView {
        RouterView {
            services: self.services.insert(info.service_id, info),
            cmd_routes: routes_with(self.cmd_routes, info.commands, info.service_id),
            health_check_handles: self.health_check_handles.remove(info.service_id),
            ..self
        }
    }

    /// A connection to a service that registers was made: it is kept, and the
    /// service is taken to be healthy.
    pub open spec fn connected(self, id: Seq<char>, client: u64) -> RouterView {
        RouterView {
            clients: self.clients.insert(id, client),
            health_status: self.health_status.insert(id, true),
            ..self
        }
    }

    /// A new connection to a known service was made.
    pub open spec fn reconnected(self, id: Seq<char>, client: u64) -> RouterView {
        RouterView { clients: self.clients.insert(id, client), ..self }
    }

    /// A service was found healthy, or not.
    pub open spec fn with_health(self, id: Seq<char>, healthy: bool) -> RouterView {
        RouterView { health_status: self.health_status.insert(id, healthy), ..self }
    }

    /// What a health check of a service ends with, where `answer` is the status
    /// that the service gives when it is asked: without a connection it is not
    /// asked, so there is no answer.
    pub open spec fn heard(self, id: Seq<char>, answer: Option<i32>) -> Option<i32> {
        if self.clients.contains_key(id) {
            answer
        } else {
            None
        }
    }

    /// A task was started that checks the health of a service.
    pub open spec fn with_health_check(self, id: Seq<char>, handle: u64) -> RouterView {
        RouterView { health_check_handles: self.health_check_handles.insert(id, handle), ..self }
    }

    /// The tasks that checked the health of registered services are given up.
    pub open spec fn without_health_checks(self) -> RouterView {
        RouterView {
            health_check_handles: self.health_check_handles.remove_keys(self.services.dom()),
            ..self
        }
    }
}

/// What holds of a router at all times.
impl RouterView {
    /// Every list of routes names registered services, at least one, and none of
    /// them twice; only registered services have a connection, a health or a
    /// health check; and a service that counts as healthy has a connection.
    pub open spec fn wf(self) -> bool {
        &&& forall|id: Seq<char>| #[trigger]
            self.services.contains_key(id) ==> self.services[id].service_id == id
        &&& forall|cmd: Seq<char>| #[trigger]
            self.cmd_routes.contains_key(cmd) ==> self.is_route_list(self.cmd_routes[cmd])
        &&& forall|id: Seq<char>| #[trigger]
            self.clients.contains_key(id) ==> self.services.contains_key(id)
        &&& forall|id: Seq<char>| #[trigger]
            self.health_status.contains_key(id) ==> self.services.contains_key(id)
        &&& forall|id: Seq<char>| #[trigger]
            self.health_check_handles.contains_key(id) ==> self.services.contains_key(id)
        &&& forall|id: Seq<char>| #[trigger]
            self.is_healthy(id) ==> self.clients.contains_key(id)
    }

    /// Registered services, at least one, and none of them twice.
    pub open spec fn is_route_list(self, list: Seq<Seq<char>>) -> bool {
        &&& list.len() > 0
        &&& list.no_duplicates()
        &&& forall|i: int| 0 <= i < list.len() ==> self.services.contains_key(#[trigger] list[i])
    }
}

} // verus!
