use crate::configuration::global_configuration::{
    names_of, route_views_of, RouteConfiguration, RouteView,
};
use crate::modules::error::{ManagerError, ManagerErrorView};
use vstd::prelude::*;

verus! {

/// The name at position `j` has already occurred before `j`.
pub open spec fn repeats_at(names: Seq<Seq<char>>, j: int) -> bool {
    0 <= j < names.len() && exists|i: int| 0 <= i < j && names[i] == names[j]
}

/// Position `j` is the first at which a name occurs for the second time.
pub open spec fn first_repeat(names: Seq<Seq<char>>, j: int) -> bool {
    repeats_at(names, j) && forall|k: int| 0 <= k < j ==> !repeats_at(names, k)
}

/// Every module name that a route mentions: its senders, then its receivers.
pub open spec fn endpoints(route: RouteView) -> Seq<Seq<char>> {
    route.from + route.to
}

/// The `k`-th name that route `r` mentions is not among the declared `names`.
pub open spec fn dangling_at(
    names: Seq<Seq<char>>,
    routes: Seq<RouteView>,
    r: int,
    k: int,
) -> bool {
    &&& 0 <= r < routes.len()
    &&& 0 <= k < endpoints(routes[r]).len()
    &&& !names.contains(endpoints(routes[r])[k])
}

/// Some route mentions a name that was never declared.
pub open spec fn has_dangling(names: Seq<Seq<char>>, routes: Seq<RouteView>) -> bool {
    exists|r: int, k: int| dangling_at(names, routes, r, k)
}

/// The dangling reference at `(r, k)` comes before every other one: no earlier
/// route has one, and route `r` has none at an earlier position.
pub open spec fn first_dangling(
    names: Seq<Seq<char>>,
    routes: Seq<RouteView>,
    r: int,
    k: int,
) -> bool {
    &&& dangling_at(names, routes, r, k)
    &&& forall|q: int, j: int| #[trigger]
        dangling_at(names, routes, q, j) ==> r < q || (r == q && k <= j)
}

/// Route `r` has no module on one of its two sides.
pub open spec fn empty_at(routes: Seq<RouteView>, r: int) -> bool {
    0 <= r < routes.len() && (routes[r].from.len() == 0 || routes[r].to.len() == 0)
}

/// Some route has no module on one of its two sides.
pub open spec fn has_empty(routes: Seq<RouteView>) -> bool {
    exists|r: int| empty_at(routes, r)
}

/// Route `r` is the first that has no module on one of its two sides.
pub open spec fn first_empty(routes: Seq<RouteView>, r: int) -> bool {
    empty_at(routes, r) && forall|q: int| 0 <= q < r ==> !empty_at(routes, q)
}

/// The routes are sound for the declared names: every name they mention is
/// declared, and every route has a module on both sides.
pub open spec fn routes_valid(names: Seq<Seq<char>>, routes: Seq<RouteView>) -> bool {
    !has_dangling(names, routes) && !has_empty(routes)
}

/// Route `r` names the module as a sender.
pub open spec fn sends_on(routes: Seq<RouteView>, r: int, name: Seq<char>) -> bool {
    0 <= r < routes.len() && routes[r].from.contains(name)
}

/// Route `r` names the module as a receiver.
pub open spec fn receives_on(routes: Seq<RouteView>, r: int, name: Seq<char>) -> bool {
    0 <= r < routes.len() && routes[r].to.contains(name)
}

/// Route `r` is the last one that names the module as a sender.
pub open spec fn last_sending(routes: Seq<RouteView>, r: int, name: Seq<char>) -> bool {
    sends_on(routes, r, name) && forall|q: int| r < q ==> !sends_on(routes, q, name)
}

/// Route `r` is the last one that names the module as a receiver.
pub open spec fn last_receiving(routes: Seq<RouteView>, r: int, name: Seq<char>) -> bool {
    receives_on(routes, r, name) && forall|q: int| r < q ==> !receives_on(routes, q, name)
}

/// No route names the module as a sender.
pub open spec fn never_sends(routes: Seq<RouteView>, name: Seq<char>) -> bool {
    forall|q: int| !sends_on(routes, q, name)
}

/// No route names the module as a receiver.
pub open spec fn never_receives(routes: Seq<RouteView>, name: Seq<char>) -> bool {
    forall|q: int| !receives_on(routes, q, name)
}

/// Some route mentions the module, on either side. Only such a module is
/// launched.
pub open spec fn routable(routes: Seq<RouteView>, name: Seq<char>) -> bool {
    exists|r: int| sends_on(routes, r, name) || receives_on(routes, r, name)
}

/// Where no reference dangles, every module that a route names, as a sender or
/// as a receiver, is a declared one.
pub proof fn lemma_routes_name_declared_modules(
    names: Seq<Seq<char>>,
    routes: Seq<RouteView>,
    r: int,
    name: Seq<char>,
)
    requires
        !has_dangling(names, routes),
        sends_on(routes, r, name) || receives_on(routes, r, name),
    ensures
        names.contains(name),
{
    let route = routes[r];
    if route.from.contains(name) {
        let j = choose|j: int| 0 <= j < route.from.len() && route.from[j] == name;
        assert(endpoints(route)[j] == name);
        assert(!dangling_at(names, routes, r, j));
    } else {
        let j = choose|j: int| 0 <= j < route.to.len() && route.to[j] == name;
        assert(endpoints(route)[route.from.len() + j] == name);
        assert(!dangling_at(names, routes, r, route.from.len() + j));
    }
}

/// Taking one more route into account, a module is reached if it was reached
/// before or if that route names it.
pub(crate) proof fn lemma_routable_step(routes: Seq<RouteView>, r: int, name: Seq<char>)
    requires
        0 <= r < routes.len(),
    ensures
        routable(routes.take(r + 1), name) == (routable(routes.take(r), name)
            || routes[r].from.contains(name) || routes[r].to.contains(name)),
{
    let shorter = routes.take(r);
    let longer = routes.take(r + 1);
    assert(longer[r] == routes[r]);
    if routable(shorter, name) {
        let q = choose|q: int| sends_on(shorter, q, name) || receives_on(shorter, q, name);
        assert(shorter[q] == longer[q]);
        assert(sends_on(longer, q, name) || receives_on(longer, q, name));
    }
    if routes[r].from.contains(name) || routes[r].to.contains(name) {
        assert(sends_on(longer, r, name) || receives_on(longer, r, name));
    }
    if routable(longer, name) {
        let q = choose|q: int| sends_on(longer, q, name) || receives_on(longer, q, name);
        if q < r {
            assert(shorter[q] == longer[q]);
            assert(sends_on(shorter, q, name) || receives_on(shorter, q, name));
        }
    }
}

/// How wiring the `routes` between the modules `names` can fail, and what each
/// failure says: the first reference to an undeclared module; where there is
/// none, the first route that lacks a module on one side; where the routes are
/// sound, a module that refused the endpoint that a route hands it.
pub open spec fn wiring_refused(
    names: Seq<Seq<char>>,
    routes: Seq<RouteView>,
    error: ManagerErrorView,
) -> bool {
    match error {
        ManagerErrorView::DanglingRouteReference(route, module) => exists|r: int, k: int|
            {
                &&& first_dangling(names, routes, r, k)
                &&& route == routes[r].name
                &&& module == endpoints(routes[r])[k]
            },
        ManagerErrorView::EmptyRouteEndpoint(route) => !has_dangling(names, routes) && exists|
            r: int,
        |
            first_empty(routes, r) && route == routes[r].name,
        ManagerErrorView::UnsupportedOperation(route, module) => routes_valid(names, routes)
            && exists|r: int, k: int|
            {
                &&& 0 <= r < routes.len()
                &&& 0 <= k < endpoints(routes[r]).len()
                &&& route == routes[r].name
                &&& module == #[trigger] endpoints(routes[r])[k]
            },
        _ => false,
    }
}

/// Finds the first of the leading `limit` names that equals `name`.
fn position_within(names: &Vec<String>, limit: usize, name: &String) -> (found: Option<usize>)
    requires
        limit <= names.len(),
    ensures
        match found {
            Some(i) => i < limit && names[i as int]@ == name@ && forall|k: int|
                0 <= k < i ==> names[k]@ != name@,
            None => forall|k: int| 0 <= k < limit ==> names[k]@ != name@,
        },
{
    let mut i: usize = 0;
    while i < limit
        invariant
            i <= limit <= names.len(),
            forall|k: int| 0 <= k < i ==> names[k]@ != name@,
        decreases limit - i,
    {
        if names[i] == *name {
            return Some(i);
        }
        i += 1;
    }
    None
}

/// Finds the position of `name` among `names`: the first, should it occur twice.
pub fn position(names: &Vec<String>, name: &String) -> (found: Option<usize>)
    ensures
        match found {
            Some(i) => i < names.len() && names[i as int]@ == name@ && forall|k: int|
                0 <= k < i ==> names[k]@ != name@,
            None => !names_of(names@).contains(name@),
        },
{
    position_within(names, names.len(), name)
}

/// Finds the first position at which a name occurs for the second time.
pub fn find_repeat(names: &Vec<String>) -> (found: Option<usize>)
    ensures
        match found {
            Some(j) => first_repeat(names_of(names@), j as int),
            None => names_of(names@).no_duplicates(),
        },
{
    let mut j: usize = 0;
    while j < names.len()
        invariant
            j <= names.len(),
            forall|k: int| 0 <= k < j ==> !repeats_at(names_of(names@), k),
        decreases names.len() - j,
    {
        match position_within(names, j, &names[j]) {
            Some(i) => {
                assert(names_of(names@)[i as int] == names_of(names@)[j as int]);
                return Some(j);
            },
            None => {
                assert(!repeats_at(names_of(names@), j as int));
            },
        }
        j += 1;
    }
    proof {
        let all = names_of(names@);
        assert forall|a: int, b: int| 0 <= a < all.len() && 0 <= b < all.len() && a != b implies all[a]
            != all[b] by {
            if a < b {
                assert(!repeats_at(all, b));
            } else {
                assert(!repeats_at(all, a));
            }
        }
    }
    None
}

/// Finds the first name of `list` that is not among the declared `names`.
pub fn first_undeclared(names: &Vec<String>, list: &Vec<String>) -> (found: Option<usize>)
    ensures
        match found {
            Some(k) => k < list.len() && !names_of(names@).contains(list[k as int]@) && forall|
                j: int,
            |
                0 <= j < k ==> names_of(names@).contains(#[trigger] list[j]@),
            None => forall|j: int|
                0 <= j < list.len() ==> names_of(names@).contains(#[trigger] list[j]@),
        },
{
    let mut k: usize = 0;
    while k < list.len()
        invariant
            k <= list.len(),
            forall|j: int| 0 <= j < k ==> names_of(names@).contains(#[trigger] list[j]@),
        decreases list.len() - k,
    {
        match position(names, &list[k]) {
            Some(i) => {
                assert(names_of(names@)[i as int] == list[k as int]@);
            },
            None => {
                return Some(k);
            },
        }
        k += 1;
    }
    None
}

/// Checks that every module name that a route mentions is declared, and
/// reports the first reference that is not: the earliest route that has one,
/// and in it the earliest name, senders before receivers.
pub fn check_references(names: &Vec<String>, routes: &Vec<(String, RouteConfiguration)>) -> (result:
    Result<(), ManagerError>)
    ensures
        match result {
            Ok(()) => !has_dangling(names_of(names@), route_views_of(routes@)),
            Err(error) => exists|r: int, k: int|
                {
                    &&& first_dangling(names_of(names@), route_views_of(routes@), r, k)
                    &&& error@ == ManagerErrorView::DanglingRouteReference(
                        route_views_of(routes@)[r].name,
                        endpoints(route_views_of(routes@)[r])[k],
                    )
                },
        },
{
    let ghost declared = names_of(names@);
    let ghost views = route_views_of(routes@);
    let mut r: usize = 0;
    while r < routes.len()
        invariant
            r <= routes.len(),
            declared == names_of(names@),
            views == route_views_of(routes@),
            forall|q: int, j: int| 0 <= q < r ==> !dangling_at(declared, views, q, j),
        decreases routes.len() - r,
    {
        let from = routes[r].1.from.get_modules();
        let to = routes[r].1.to.get_modules();
        assert(views[r as int].from == names_of(from@));
        assert(views[r as int].to == names_of(to@));
        match first_undeclared(names, &from) {
            Some(k) => {
                let error = ManagerError::DanglingRouteReference(
                    routes[r].0.clone(),
                    from[k].clone(),
                );
                proof {
                    let at = k as int;
                    assert(endpoints(views[r as int])[at] == from[at]@);
                    assert forall|q: int, j: int| #[trigger]
                        dangling_at(declared, views, q, j) implies r < q || (r == q && at <= j) by {
                        if q == r && j < at {
                            assert(endpoints(views[q])[j] == from[j]@);
                        }
                    }
                    assert(first_dangling(declared, views, r as int, at));
                }
                return Err(error);
            },
            None => {},
        }
        match first_undeclared(names, &to) {
            Some(k) => {
                let error = ManagerError::DanglingRouteReference(routes[r].0.clone(), to[k].clone());
                proof {
                    let at = from.len() + k;
                    assert(endpoints(views[r as int])[at] == to[k as int]@);
                    assert forall|q: int, j: int| #[trigger]
                        dangling_at(declared, views, q, j) implies r < q || (r == q && at <= j) by {
                        if q == r && j < at {
                            if j < from.len() {
                                assert(endpoints(views[q])[j] == from[j]@);
                            } else {
                                assert(endpoints(views[q])[j] == to[j - from.len()]@);
                            }
                        }
                    }
                    assert(first_dangling(declared, views, r as int, at));
                }
                return Err(error);
            },
            None => {},
        }
        proof {
            assert forall|j: int| !dangling_at(declared, views, r as int, j) by {
                if 0 <= j < endpoints(views[r as int]).len() {
                    if j < from.len() {
                        assert(endpoints(views[r as int])[j] == from[j]@);
                    } else {
                        assert(endpoints(views[r as int])[j] == to[j - from.len()]@);
                    }
                }
            }
        }
        r += 1;
    }
    Ok(())
}

/// Checks that every route has a module on both of its sides, and reports the
/// first route that has not.
pub fn check_endpoints(routes: &Vec<(String, RouteConfiguration)>) -> (result: Result<
    (),
    ManagerError,
>)
    ensures
        match result {
            Ok(()) => !has_empty(route_views_of(routes@)),
            Err(error) => exists|r: int|
                {
                    &&& first_empty(route_views_of(routes@), r)
                    &&& error@ == ManagerErrorView::EmptyRouteEndpoint(
                        route_views_of(routes@)[r].name,
                    )
                },
        },
{
    let ghost views = route_views_of(routes@);
    let mut r: usize = 0;
    while r < routes.len()
        invariant
            r <= routes.len(),
            views == route_views_of(routes@),
            forall|q: int| 0 <= q < r ==> !empty_at(views, q),
        decreases routes.len() - r,
    {
        let from = routes[r].1.from.get_modules();
        let to = routes[r].1.to.get_modules();
        assert(views[r as int].from == names_of(from@));
        assert(views[r as int].to == names_of(to@));
        if from.len() == 0 || to.len() == 0 {
            let error = ManagerError::EmptyRouteEndpoint(routes[r].0.clone());
            assert(first_empty(views, r as int));
            return Err(error);
        }
        r += 1;
    }
    Ok(())
}

} // verus!
