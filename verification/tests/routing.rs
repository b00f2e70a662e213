use service_gateway::router::{
    choose_service, is_serving, pick_service, service_endpoint, Dispatch, Failure, Router,
};
use service_gateway::types::{
    Message, RoutingStrategy, ServiceInfo, Status, CODE_NOT_FOUND, CODE_UNAVAILABLE,
};

fn service(id: &str, commands: &[&str], interval: i32) -> ServiceInfo {
    ServiceInfo {
        service_id: id.to_string(),
        service_name: format!("{} name", id),
        service_addr: format!("{}.local:9000", id),
        commands: commands.iter().map(|c| c.to_string()).collect(),
        health_check_interval_sec: interval,
    }
}

fn message(target: &str, cmd: &str) -> Message {
    Message {
        source_service: "web".to_string(),
        target_service: target.to_string(),
        cmd: cmd.to_string(),
        user_id: "u1".to_string(),
        metadata: "{}".to_string(),
        extra: vec![50, 1, 7],
    }
}

fn connect(router: &mut Router, info: &ServiceInfo, client: u64) {
    router.register_service(info);
    let done = router.complete_registration(info, Ok(client));
    assert!(done.response.success);
}

fn refused(dispatch: Result<Dispatch, Status>) -> (i32, String) {
    match dispatch {
        Ok(_) => panic!("the message was not refused"),
        Err(status) => (status.code, status.message),
    }
}

#[test]
fn empty_router_has_no_route() {
    let mut router = Router::new();
    assert_eq!(router.determine_route(&message("", "login")), None);
    assert_eq!(
        refused(router.forward_message(message("", "login"))),
        (CODE_NOT_FOUND, "No service found for the given command".to_string())
    );
    assert_eq!(CODE_NOT_FOUND, 5);
}

#[test]
fn named_target_comes_first() {
    let mut router = Router::new();
    connect(&mut router, &service("a", &["login"], 0), 1);
    assert_eq!(
        router.determine_route(&message("elsewhere", "login")),
        Some("elsewhere".to_string())
    );
    assert_eq!(
        refused(router.forward_message(message("elsewhere", "login"))),
        (CODE_UNAVAILABLE, "Service connection not available".to_string())
    );
    assert_eq!(CODE_UNAVAILABLE, 14);
}

#[test]
fn registration_starts_with_a_connection() {
    let mut router = Router::new();
    let info = service("a", &["login", "logout", "login"], 30);
    assert_eq!(service_endpoint(&info), "http://a.local:9000");
    let start = router.register_service(&info);
    assert_eq!(start.cancel, None);
    assert_eq!(start.endpoint, "http://a.local:9000");
    assert!(router.is_registered("a"));
    assert!(!router.is_registered("b"));
    assert!(!router.is_healthy("a"));
}

#[test]
fn successful_registration_is_answered() {
    let mut router = Router::new();
    let info = service("a", &["login"], 30);
    router.register_service(&info);
    let done = router.complete_registration(&info, Ok(7));
    assert!(done.response.success);
    assert_eq!(done.response.message, "Service a name registered successfully");
    assert_eq!(done.replaced, None);
    assert_eq!(done.check_interval, Some(30));
    assert!(router.is_healthy("a"));

    let dispatch = router.forward_message(message("", "login")).unwrap();
    assert_eq!(dispatch.client, 7);
    assert!(!dispatch.known_unhealthy);
    assert_eq!(dispatch.message.target_service, "a");
    assert_eq!(dispatch.message.source_service, "web");
    assert_eq!(dispatch.message.cmd, "login");
    assert_eq!(dispatch.message.user_id, "u1");
    assert_eq!(dispatch.message.metadata, "{}");
    assert_eq!(dispatch.message.extra, vec![50, 1, 7]);
}

#[test]
fn failed_connection_leaves_the_service_registered() {
    let mut router = Router::new();
    let info = service("a", &["login"], 30);
    router.register_service(&info);
    let done = router.complete_registration(&info, Err("refused".to_string()));
    assert!(!done.response.success);
    assert_eq!(done.response.message, "Failed to connect to service: refused");
    assert_eq!(done.replaced, None);
    assert_eq!(done.check_interval, None);
    assert!(router.is_registered("a"));
    assert!(!router.is_healthy("a"));
    assert_eq!(router.determine_route(&message("", "login")), Some("a".to_string()));
    assert_eq!(refused(router.forward_message(message("", "login"))).0, CODE_UNAVAILABLE);
}

#[test]
fn intervals_that_are_not_positive_ask_for_no_checks() {
    for interval in [0, -1, i32::MIN] {
        let mut router = Router::new();
        let info = service("a", &[], interval);
        router.register_service(&info);
        assert_eq!(router.complete_registration(&info, Ok(1)).check_interval, None);
    }
    let mut router = Router::new();
    let info = service("a", &[], i32::MAX);
    router.register_service(&info);
    assert_eq!(router.complete_registration(&info, Ok(1)).check_interval, Some(2147483647));
}

#[test]
fn who_came_first_stays_first() {
    let mut router = Router::new();
    router.register_service(&service("a", &["login"], 0));
    router.register_service(&service("b", &["login", "list"], 0));
    router.register_service(&service("a", &["login", "list"], 0));
    // None of them is healthy, so the first of the list is tried.
    assert_eq!(router.determine_route(&message("", "login")), Some("a".to_string()));
    assert_eq!(router.determine_route(&message("", "list")), Some("b".to_string()));
}

#[test]
fn registering_again_replaces_the_connection() {
    let mut router = Router::new();
    let info = service("a", &["login"], 0);
    connect(&mut router, &info, 1);
    router.register_service(&info);
    assert_eq!(router.complete_registration(&info, Ok(2)).replaced, Some(1));
    assert_eq!(router.forward_message(message("", "login")).unwrap().client, 2);
}

#[test]
fn unavailable_service_is_passed_over() {
    let mut router = Router::new();
    connect(&mut router, &service("a", &["login"], 0), 1);
    connect(&mut router, &service("b", &["login"], 0), 2);
    let failure: Result<u8, Failure<&str>> =
        Err(Failure { code: CODE_UNAVAILABLE, status: "down" });
    assert_eq!(router.complete_forward("a", failure), Err("down"));
    assert!(!router.is_healthy("a"));
    assert_eq!(router.determine_route(&message("", "login")), Some("b".to_string()));
    let direct = router.forward_message(message("a", "login")).unwrap();
    assert_eq!(direct.client, 1);
    assert!(direct.known_unhealthy);
}

#[test]
fn other_failures_leave_the_health_alone() {
    let mut router = Router::new();
    connect(&mut router, &service("a", &["login"], 0), 1);
    let failure: Result<u8, Failure<&str>> = Err(Failure { code: 13, status: "internal" });
    assert_eq!(router.complete_forward("a", failure), Err("internal"));
    assert!(router.is_healthy("a"));
    let answer: Result<u8, Failure<&str>> = Ok(42);
    assert_eq!(router.complete_forward("a", answer), Ok(42));
    assert!(router.is_healthy("a"));
}

#[test]
fn without_a_healthy_service_the_first_one_is_tried() {
    let mut router = Router::new();
    connect(&mut router, &service("a", &["login"], 0), 1);
    connect(&mut router, &service("b", &["login"], 0), 2);
    router.complete_health_check("a", None);
    router.complete_health_check("b", Some(2));
    let dispatch = router.forward_message(message("", "login")).unwrap();
    assert_eq!(dispatch.client, 1);
    assert!(dispatch.known_unhealthy);
}

#[test]
fn only_serving_is_healthy() {
    let mut router = Router::new();
    connect(&mut router, &service("a", &["login"], 0), 1);
    for (status, healthy) in
        [(Some(2), false), (Some(1), true), (Some(0), false), (Some(3), false), (None, false)]
    {
        assert_eq!(router.complete_health_check("a", status), healthy);
        assert_eq!(router.is_healthy("a"), healthy);
    }
    assert!(router.complete_health_check("a", Some(1)));
    assert_eq!(router.forward_message(message("", "login")).unwrap().client, 1);
}

#[test]
fn health_is_asked_over_the_connection() {
    let mut router = Router::new();
    assert!(router.check_service_health("a").is_none());
    connect(&mut router, &service("a", &[], 0), 9);
    let probe = router.check_service_health("a").unwrap();
    assert_eq!(probe.client, 9);
    assert_eq!(probe.request.service_id, "a");
}

#[test]
fn reconnecting_keeps_the_health() {
    let mut router = Router::new();
    connect(&mut router, &service("a", &["login"], 0), 1);
    router.complete_health_check("a", None);
    assert_eq!(router.complete_reconnect("a", Ok(5)), Ok(Some(1)));
    assert!(!router.is_healthy("a"));
    assert_eq!(router.forward_message(message("", "login")).unwrap().client, 5);
    assert_eq!(
        router.complete_reconnect("a", Err("refused".to_string())),
        Err("Failed to reconnect: refused".to_string())
    );
    assert_eq!(router.forward_message(message("", "login")).unwrap().client, 5);
}

#[test]
fn registering_again_cancels_the_health_check() {
    let mut router = Router::new();
    let info = service("a", &["login"], 10);
    connect(&mut router, &info, 1);
    assert_eq!(router.schedule_health_check("a", 100), None);
    assert_eq!(router.schedule_health_check("a", 101), Some(100));
    assert_eq!(router.register_service(&info).cancel, Some(101));
    assert_eq!(router.register_service(&info).cancel, None);
}

#[test]
fn health_checks_start_anew_for_every_service() {
    let mut router = Router::new();
    connect(&mut router, &service("a", &[], 10), 1);
    connect(&mut router, &service("b", &[], 0), 2);
    connect(&mut router, &service("c", &[], 20), 3);
    router.schedule_health_check("a", 100);
    router.schedule_health_check("b", 101);
    let mut plans: Vec<(String, Option<u64>, Option<u64>)> = router
        .start_health_checks()
        .into_iter()
        .map(|plan| (plan.service_id, plan.cancel, plan.check_interval))
        .collect();
    plans.sort();
    assert_eq!(
        plans,
        vec![
            ("a".to_string(), Some(100), Some(10)),
            ("b".to_string(), Some(101), None),
            ("c".to_string(), None, Some(20)),
        ]
    );
    assert!(router.start_health_checks().iter().all(|plan| plan.cancel.is_none()));
}

#[test]
fn strategies_pick_by_their_rule() {
    let healthy: Vec<String> = vec!["a".to_string(), "b".to_string(), "c".to_string()];
    for (turn, draw) in [(0, 2), (1, 0), (2, 1)] {
        assert_eq!(pick_service(RoutingStrategy::RoundRobin, &healthy, turn, draw), healthy[turn]);
        assert_eq!(pick_service(RoutingStrategy::FirstAvailable, &healthy, turn, draw), "a");
        assert_eq!(pick_service(RoutingStrategy::Random, &healthy, turn, draw), healthy[draw]);
        assert_eq!(choose_service(RoutingStrategy::RoundRobin, &healthy, turn), healthy[turn]);
        assert_eq!(choose_service(RoutingStrategy::FirstAvailable, &healthy, turn), "a");
    }
}

#[test]
fn random_choice_reaches_every_service() {
    let healthy: Vec<String> = vec!["a".to_string(), "b".to_string(), "c".to_string()];
    let mut seen = std::collections::BTreeSet::new();
    for _ in 0..1000 {
        seen.insert(choose_service(RoutingStrategy::Random, &healthy, 0));
    }
    assert_eq!(seen.into_iter().collect::<Vec<String>>(), healthy);
    let one: Vec<String> = vec!["a".to_string()];
    assert_eq!(choose_service(RoutingStrategy::Random, &one, 0), "a");
}

#[test]
fn healthy_services_take_turns() {
    let mut router = Router::new();
    connect(&mut router, &service("a", &["login", "list"], 0), 1);
    connect(&mut router, &service("b", &["login"], 0), 2);
    connect(&mut router, &service("c", &["login", "list"], 0), 3);
    for id in ["a", "b", "c", "a", "b", "c", "a"] {
        assert_eq!(router.determine_route(&message("", "login")), Some(id.to_string()));
    }
    // Each command has a turn of its own.
    assert_eq!(router.determine_route(&message("", "list")), Some("a".to_string()));
    assert_eq!(router.determine_route(&message("", "login")), Some("b".to_string()));
    assert_eq!(router.forward_message(message("", "list")).unwrap().client, 3);
    assert_eq!(router.forward_message(message("", "login")).unwrap().client, 3);
}

#[test]
fn named_targets_take_no_turn() {
    let mut router = Router::new();
    connect(&mut router, &service("a", &["login"], 0), 1);
    connect(&mut router, &service("b", &["login"], 0), 2);
    assert_eq!(router.determine_route(&message("b", "login")), Some("b".to_string()));
    assert_eq!(router.determine_route(&message("", "login")), Some("a".to_string()));
    assert_eq!(router.determine_route(&message("a", "login")), Some("a".to_string()));
    assert_eq!(router.determine_route(&message("", "login")), Some("b".to_string()));
}

#[test]
fn turns_count_round_when_services_fail() {
    let mut router = Router::new();
    connect(&mut router, &service("a", &["login"], 0), 1);
    connect(&mut router, &service("b", &["login"], 0), 2);
    connect(&mut router, &service("c", &["login"], 0), 3);
    router.determine_route(&message("", "login"));
    router.determine_route(&message("", "login"));
    // It is the turn of the third service, and only two are left.
    router.complete_health_check("a", None);
    assert_eq!(router.determine_route(&message("", "login")), Some("b".to_string()));
    assert_eq!(router.determine_route(&message("", "login")), Some("c".to_string()));
    // Without a healthy service no turn is taken.
    router.complete_health_check("b", None);
    router.complete_health_check("c", None);
    for _ in 0..3 {
        assert_eq!(router.determine_route(&message("", "login")), Some("a".to_string()));
    }
    router.complete_health_check("b", Some(1));
    router.complete_health_check("c", Some(1));
    assert_eq!(router.determine_route(&message("", "login")), Some("b".to_string()));
    assert_eq!(router.determine_route(&message("", "login")), Some("c".to_string()));
}

#[test]
fn verdict_on_an_answer_changes_nothing() {
    let mut router = Router::new();
    connect(&mut router, &service("A", &[], 0), 1);
    assert!(router.check_service_health("A").is_some());
    assert!(!is_serving(Some(2)));
    assert!(router.is_healthy("A"));
    assert!(router.check_service_health("B").is_none());
    assert!(!is_serving(None));
    assert!(is_serving(Some(1)));
    assert!(!is_serving(Some(0)));
    assert!(!is_serving(Some(3)));
}

#[test]
fn one_check_sets_one_flag() {
    let mut router = Router::new();
    router.register_service(&service("a", &[], 5));
    connect(&mut router, &service("b", &[], 5), 2);
    connect(&mut router, &service("c", &[], 5), 3);
    // There is no connection to the first service, so nothing is asked.
    assert!(router.check_service_health("a").is_none());
    assert!(!router.complete_health_check("a", None));
    assert!(!router.is_healthy("a"));
    let probe = router.check_service_health("b").unwrap();
    assert_eq!(probe.client, 2);
    assert!(!router.complete_health_check("b", Some(2)));
    assert!(!router.is_healthy("b"));
    assert!(router.is_healthy("c"));
    assert!(router.complete_health_check("b", Some(1)));
    assert!(router.is_healthy("b"));
}
