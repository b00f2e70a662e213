//! The concurrent hash maps of the `dashmap` crate, as the gateway uses them.
//!
//! Every table is keyed by a text. Each kind of table has a name for what it
//! holds, and each operation says what it does in terms of that name. The
//! operations that change a table take it by exclusive reference, so no other
//! reference into the map is alive while they run and none of its locks can be
//! held.

use dashmap::DashMap;
use vstd::prelude::*;

use crate::types::{texts, RoutingStrategy, ServiceInfo, ServiceInfoView};

verus! {

/// The map type of `dashmap`; nothing inside it is visible here.
#[verifier::external_type_specification]
#[verifier::external_body]
#[verifier::reject_recursive_types(K)]
#[verifier::reject_recursive_types(V)]
#[verifier::reject_recursive_types(S)]
pub struct ExDashMap<K, V, S>(DashMap<K, V, S>);

/// What a table of services holds.
pub uninterp spec fn services_in(table: DashMap<String, ServiceInfo>) -> Map<
    Seq<char>,
    ServiceInfoView,
>;

/// What a table of route lists holds.
pub uninterp spec fn routes_in(table: DashMap<String, Vec<String>>) -> Map<
    Seq<char>,
    Seq<Seq<char>>,
>;

/// What a table of flags holds.
pub uninterp spec fn flags_in(table: DashMap<String, bool>) -> Map<Seq<char>, bool>;

/// What a table of routing strategies holds.
pub uninterp spec fn strategies_in(table: DashMap<String, RoutingStrategy>) -> Map<
    Seq<char>,
    RoutingStrategy,
>;

/// What a table of numeric handles holds.
pub uninterp spec fn handles_in(table: DashMap<String, u64>) -> Map<Seq<char>, u64>;

/// Calls `DashMap::new`: the map it makes is empty.
#[verifier::external_body]
pub(crate) fn new_services() -> (table: DashMap<String, ServiceInfo>)
    ensures
        services_in(table) == (Map::<Seq<char>, ServiceInfoView>::empty()),
{
    DashMap::new()
}

/// Calls `DashMap::insert`: the key is bound to the value, in place of what it
/// was bound to, and nothing else changes.
#[verifier::external_body]
pub(crate) fn insert_service(
    table: &mut DashMap<String, ServiceInfo>,
    key: String,
    value: ServiceInfo,
)
    ensures
        services_in(*final(table)) == services_in(*old(table)).insert(key@, value@),
{
    table.insert(key, value);
}

/// Calls `DashMap::contains_key`: whether the key is bound.
#[verifier::external_body]
pub(crate) fn has_service(table: &DashMap<String, ServiceInfo>, key: &str) -> (found: bool)
    ensures
        found == services_in(*table).contains_key(key@),
{
    table.contains_key(key)
}

/// One bound key of a table of services, with the interval of its health checks.
pub open spec fn lists_interval(
    services: Map<Seq<char>, ServiceInfoView>,
    listed: (String, i32),
) -> bool {
    &&& services.contains_key(listed.0@)
    &&& services[listed.0@].health_check_interval_sec == listed.1
}

/// Walks the map with `DashMap::iter`, which yields each entry once, and hands
/// out of each the key and the interval of its health checks. The order, which
/// hashing decides, is left open.
#[verifier::external_body]
pub(crate) fn service_intervals(table: &DashMap<String, ServiceInfo>) -> (listed: Vec<
    (String, i32),
>)
    ensures
        forall|i: int|
            0 <= i < listed@.len() ==> lists_interval(services_in(*table), #[trigger] listed@[i]),
        forall|i: int, j: int|
            0 <= i < j < listed@.len() ==> (#[trigger] listed@[i]).0@ != (#[trigger] listed@[j]).0@,
        forall|key: Seq<char>| #[trigger]
            services_in(*table).contains_key(key) ==> exists|i: int|
                0 <= i < listed@.len() && (#[trigger] listed@[i]).0@ == key,
{
    table.iter().map(|entry| (entry.key().clone(), entry.value().health_check_interval_sec)).collect()
}

/// Calls `DashMap::new`: the map it makes is empty.
#[verifier::external_body]
pub(crate) fn new_routes() -> (table: DashMap<String, Vec<String>>)
    ensures
        routes_in(table) == (Map::<Seq<char>, Seq<Seq<char>>>::empty()),
{
    DashMap::new()
}

/// The list bound to `key`, or an empty one where there is none.
pub open spec fn list_at(routes: Map<Seq<char>, Seq<Seq<char>>>, key: Seq<char>) -> Seq<Seq<char>> {
    if routes.contains_key(key) {
        routes[key]
    } else {
        Seq::empty()
    }
}

/// Calls `DashMap::entry` and `or_default` on it: the key is bound to an empty
/// list where it was not bound; a copy of the list that it is then bound to is
/// returned.
#[verifier::external_body]
pub(crate) fn routes_or_default(
    table: &mut DashMap<String, Vec<String>>,
    key: String,
) -> (list: Vec<String>)
    ensures
        texts(list@) == list_at(routes_in(*old(table)), key@),
        routes_in(*final(table)) == routes_in(*old(table)).insert(
            key@,
            list_at(routes_in(*old(table)), key@),
        ),
{
    table.entry(key).or_default().clone()
}

/// Calls `DashMap::insert`: the key is bound to the list, in place of what it
/// was bound to, and nothing else changes.
#[verifier::external_body]
pub(crate) fn insert_routes(
    table: &mut DashMap<String, Vec<String>>,
    key: String,
    list: Vec<String>,
)
    ensures
        routes_in(*final(table)) == routes_in(*old(table)).insert(key@, texts(list@)),
{
    table.insert(key, list);
}

/// Calls `DashMap::get` and copies the list out of the reference it returns.
#[verifier::external_body]
pub(crate) fn get_routes(table: &DashMap<String, Vec<String>>, key: &str) -> (list: Option<
    Vec<String>,
>)
    ensures
        list is Some <==> routes_in(*table).contains_key(key@),
        list is Some ==> texts(list->0@) == routes_in(*table)[key@],
{
    table.get(key).map(|list| list.value().clone())
}

/// Calls `DashMap::new`: the map it makes is empty.
#[verifier::external_body]
pub(crate) fn new_flags() -> (table: DashMap<String, bool>)
    ensures
        flags_in(table) == (Map::<Seq<char>, bool>::empty()),
{
    DashMap::new()
}

/// Calls `DashMap::insert`: the key is bound to the flag, in place of what it
/// was bound to, and nothing else changes.
#[verifier::external_body]
pub(crate) fn insert_flag(table: &mut DashMap<String, bool>, key: String, flag: bool)
    ensures
        flags_in(*final(table)) == flags_in(*old(table)).insert(key@, flag),
{
    table.insert(key, flag);
}

/// Calls `DashMap::get` and copies the flag out of the reference it returns.
#[verifier::external_body]
pub(crate) fn get_flag(table: &DashMap<String, bool>, key: &str) -> (flag: Option<bool>)
    ensures
        flag == flags_in(*table).get(key@),
{
    table.get(key).map(|flag| *flag.value())
}

/// Calls `DashMap::new`: the map it makes is empty.
#[verifier::external_body]
pub(crate) fn new_strategies() -> (table: DashMap<String, RoutingStrategy>)
    ensures
        strategies_in(table) == (Map::<Seq<char>, RoutingStrategy>::empty()),
{
    DashMap::new()
}

/// Calls `DashMap::get` and copies the strategy out of the reference it returns.
#[verifier::external_body]
pub(crate) fn get_strategy(table: &DashMap<String, RoutingStrategy>, key: &str) -> (strategy: Option<
    RoutingStrategy,
>)
    ensures
        strategy == strategies_in(*table).get(key@),
{
    table.get(key).map(|strategy| *strategy.value())
}

/// Calls `DashMap::new`: the map it makes is empty.
#[verifier::external_body]
pub(crate) fn new_handles() -> (table: DashMap<String, u64>)
    ensures
        handles_in(table) == (Map::<Seq<char>, u64>::empty()),
{
    DashMap::new()
}

/// Calls `DashMap::insert`: the key is bound to the handle, nothing else
/// changes, and the handle that it was bound to is returned.
#[verifier::external_body]
pub(crate) fn insert_handle(
    table: &mut DashMap<String, u64>,
    key: String,
    handle: u64,
) -> (replaced: Option<u64>)
    ensures
        handles_in(*final(table)) == handles_in(*old(table)).insert(key@, handle),
        replaced == handles_in(*old(table)).get(key@),
{
    table.insert(key, handle)
}

/// Calls `DashMap::get` and copies the handle out of the reference it returns.
#[verifier::external_body]
pub(crate) fn get_handle(table: &DashMap<String, u64>, key: &str) -> (handle: Option<u64>)
    ensures
        handle == handles_in(*table).get(key@),
{
    table.get(key).map(|handle| *handle.value())
}

/// Calls `DashMap::remove`: the key is no longer bound, nothing else changes,
/// and the handle that it was bound to is returned.
#[verifier::external_body]
pub(crate) fn remove_handle(table: &mut DashMap<String, u64>, key: &str) -> (removed: Option<u64>)
    ensures
        handles_in(*final(table)) == handles_in(*old(table)).remove(key@),
        removed == handles_in(*old(table)).get(key@),
{
    table.remove(key).map(|entry| entry.1)
}

} // verus!
