//! The router: the registered routes, in order, and the lookup of a request path.

use vstd::prelude::*;
use vstd::string::*;
use crate::http::error::HttpError;
use crate::routing::route::{
    path_matches, reconcile, reconciled_views, Method, Reconciled, Route, RouteView,
};

verus! {

/// The index of the first route whose template the path matches, if any.
pub open spec fn first_match<A>(routes: Seq<Route<A>>, path: Seq<char>) -> Option<int>
    decreases routes.len(),
{
    if routes.len() == 0 {
        None
    } else {
        match first_match(routes.drop_last(), path) {
            Some(i) => Some(i),
            None => if path_matches(routes.last()@.path, path) {
                Some(routes.len() - 1)
            } else {
                None
            },
        }
    }
}

/// What a lookup answers for a path and a method: no route; the first route
/// whose template matches, with the pieces of the path; or, where that route
/// answers another method, the error 405 "Method not allowed".
pub open spec fn resolves_to<A>(
    routes: Seq<Route<A>>,
    path: Seq<char>,
    method: Seq<char>,
    r: Result<Option<(&Route<A>, Vec<Reconciled>)>, HttpError>,
) -> bool {
    match first_match(routes, path) {
        None => r matches Ok(None),
        Some(i) => if routes[i]@.method != method {
            r matches Err(e) && e@ == (405u16, "Method not allowed"@)
        } else {
            r matches Ok(Some(found)) && *found.0 == routes[i] && reconciled_views(found.1@)
                == reconcile(routes[i]@.path, path)
        },
    }
}

/// `new` is `old` with one more route at its end.
pub open spec fn appended<A>(old: Seq<Route<A>>, new: Seq<Route<A>>, route: RouteView<A>) -> bool {
    &&& new.len() == old.len() + 1
    &&& new.drop_last() == old
    &&& new.last()@ == route
}

/// The route that registering `action` for `method` on `path` makes.
pub open spec fn plain_route<A>(method: Method, path: Seq<char>, action: A) -> RouteView<A> {
    RouteView { method: method@, path, action, name: None }
}

/// `new` is `old` with one more route at its end: the one the modifier makes
/// of the plain route.
pub open spec fn appended_modified<A, F: FnOnce(Route<A>) -> Route<A>>(
    old: Seq<Route<A>>,
    new: Seq<Route<A>>,
    route: RouteView<A>,
    modifier: F,
) -> bool {
    &&& new.len() == old.len() + 1
    &&& new.drop_last() == old
    &&& exists|plain: Route<A>| plain@ == route && #[trigger] modifier.ensures((plain,), new.last())
}

/// The routes of an application, in the order they were registered.
#[derive(Debug)]
pub struct Router<A> {
    pub routes: Vec<Route<A>>,
}

impl<A> Router<A> {
    /// A router with the routes that `register_routes` registers on an empty one.
    pub fn new<F: FnOnce(&mut Router<A>)>(register_routes: F) -> (router: Router<A>)
        requires
            forall|r: &mut Router<A>| register_routes.requires((r,)),
        ensures
            exists|r: &mut Router<A>|
                #![trigger register_routes.ensures((r,), ())]
                r.routes@.len() == 0 && *final(r) == router && register_routes.ensures((r,), ()),
    {
        let mut router = Router { routes: Vec::new() };
        register_routes(&mut router);
        router
    }

    fn push_route(&mut self, route: Route<A>)
        ensures
            final(self).routes@ == old(self).routes@.push(route),
    {
        self.routes.push(route);
    }

    /// Registers a route; where a modifier is given, the route it makes of the plain one.
    pub fn add<F: FnOnce(Route<A>) -> Route<A>>(
        &mut self,
        method: Method,
        path: &str,
        action: A,
        modifier: Option<F>,
    ) -> (r: &mut Router<A>)
        requires
            modifier matches Some(f) ==> forall|x: Route<A>| f.requires((x,)),
        ensures
            match modifier {
                Some(f) => appended_modified(old(self).routes@, r.routes@, plain_route(method, path@, action), f),
                None => appended(old(self).routes@, r.routes@, plain_route(method, path@, action)),
            },
            *final(self) == *final(r),
    {
        let ghost m = method;
        let mut route = Route::new(method, String::from_str(path), action);
        let ghost plain = route;
        match modifier {
            Some(modifier) => {
                route = modifier(route);
            },
            None => {},
        }
        let ghost before = self.routes@;
        self.push_route(route);
        assert(self.routes@.drop_last() =~= before);
        assert(self.routes@.last() == route);
        self
    }

    /// Registers `action` for GET requests on `path`.
    pub fn get(&mut self, path: &str, action: A) -> (r: &mut Router<A>)
        ensures
            appended(old(self).routes@, r.routes@, plain_route(Method::Get, path@, action)),
            *final(self) == *final(r),
    {
        let route = Route::new(Method::Get, String::from_str(path), action);
        let ghost before = self.routes@;
        self.push_route(route);
        assert(self.routes@.drop_last() =~= before);
        self
    }

    /// Registers `action` for GET requests on `path`, as the route that
    /// `modifier` makes of the plain one.
    pub fn getm<F: FnOnce(Route<A>) -> Route<A>>(
        &mut self,
        path: &str,
        action: A,
        modifier: F,
    ) -> (r: &mut Router<A>)
        requires
            forall|x: Route<A>| modifier.requires((x,)),
        ensures
            appended_modified(old(self).routes@, r.routes@, plain_route(Method::Get, path@, action), modifier),
            *final(self) == *final(r),
    {
        self.add(Method::Get, path, action, Some(modifier))
    }

    /// Registers `action` for GET requests on `path`, under `name`.
    pub fn getn(&mut self, path: &str, action: A, name: String) -> (r: &mut Router<A>)
        ensures
            appended(
                old(self).routes@,
                r.routes@,
                RouteView { name: Some(name@), ..plain_route(Method::Get, path@, action) },
            ),
            *final(self) == *final(r),
    {
        let route = Route::new(Method::Get, String::from_str(path), action).name(name);
        let ghost before = self.routes@;
        self.push_route(route);
        assert(self.routes@.drop_last() =~= before);
        self
    }

    /// Registers `action` for POST requests on `path`; where a modifier is
    /// given, the route it makes of the plain one.
    pub fn post<F: FnOnce(Route<A>) -> Route<A>>(
        &mut self,
        path: &str,
        action: A,
        modifier: Option<F>,
    ) -> (r: &mut Router<A>)
        requires
            modifier matches Some(f) ==> forall|x: Route<A>| f.requires((x,)),
        ensures
            match modifier {
                Some(f) => appended_modified(old(self).routes@, r.routes@, plain_route(Method::Post, path@, action), f),
                None => appended(old(self).routes@, r.routes@, plain_route(Method::Post, path@, action)),
            },
            *final(self) == *final(r),
    {
        self.add(Method::Post, path, action, modifier)
    }

    /// Registers `action` for POST requests on `path`, as the route that
    /// `modifier` makes of the plain one.
    pub fn postm<F: FnOnce(Route<A>) -> Route<A>>(
        &mut self,
        path: &str,
        action: A,
        modifier: F,
    ) -> (r: &mut Router<A>)
        requires
            forall|x: Route<A>| modifier.requires((x,)),
        ensures
            appended_modified(old(self).routes@, r.routes@, plain_route(Method::Post, path@, action), modifier),
            *final(self) == *final(r),
    {
        self.add(Method::Post, path, action, Some(modifier))
    }

    /// Registers `action` for POST requests on `path`, under `name`.
    pub fn postn(&mut self, path: &str, action: A, name: String) -> (r: &mut Router<A>)
        ensures
            appended(
                old(self).routes@,
                r.routes@,
                RouteView { name: Some(name@), ..plain_route(Method::Post, path@, action) },
            ),
            *final(self) == *final(r),
    {
        let route = Route::new(Method::Post, String::from_str(path), action).name(name);
        let ghost before = self.routes@;
        self.push_route(route);
        assert(self.routes@.drop_last() =~= before);
        self
    }

    /// Registers `action` for PATCH requests on `path`; where a modifier is
    /// given, the route it makes of the plain one.
    pub fn patch<F: FnOnce(Route<A>) -> Route<A>>(
        &mut self,
        path: &str,
        action: A,
        modifier: Option<F>,
    ) -> (r: &mut Router<A>)
        requires
            modifier matches Some(f) ==> forall|x: Route<A>| f.requires((x,)),
        ensures
            match modifier {
                Some(f) => appended_modified(old(self).routes@, r.routes@, plain_route(Method::Patch, path@, action), f),
                None => appended(old(self).routes@, r.routes@, plain_route(Method::Patch, path@, action)),
            },
            *final(self) == *final(r),
    {
        self.add(Method::Patch, path, action, modifier)
    }

    /// Registers `action` for PATCH requests on `path`, as the route that
    /// `modifier` makes of the plain one.
    pub fn patchm<F: FnOnce(Route<A>) -> Route<A>>(
        &mut self,
        path: &str,
        action: A,
        modifier: F,
    ) -> (r: &mut Router<A>)
        requires
            forall|x: Route<A>| modifier.requires((x,)),
        ensures
            appended_modified(old(self).routes@, r.routes@, plain_route(Method::Patch, path@, action), modifier),
            *final(self) == *final(r),
    {
        self.add(Method::Patch, path, action, Some(modifier))
    }

    /// Registers `action` for PATCH requests on `path`, under `name`.
    pub fn patchn(&mut self, path: &str, action: A, name: String) -> (r: &mut Router<A>)
        ensures
            appended(
                old(self).routes@,
                r.routes@,
                RouteView { name: Some(name@), ..plain_route(Method::Patch, path@, action) },
            ),
            *final(self) == *final(r),
    {
        let route = Route::new(Method::Patch, String::from_str(path), action).name(name);
        let ghost before = self.routes@;
        self.push_route(route);
        assert(self.routes@.drop_last() =~= before);
        self
    }

    /// Registers `action` for PUT requests on `path`; where a modifier is
    /// given, the route it makes of the plain one.
    pub fn put<F: FnOnce(Route<A>) -> Route<A>>(
        &mut self,
        path: &str,
        action: A,
        modifier: Option<F>,
    ) -> (r: &mut Router<A>)
        requires
            modifier matches Some(f) ==> forall|x: Route<A>| f.requires((x,)),
        ensures
            match modifier {
                Some(f) => appended_modified(old(self).routes@, r.routes@, plain_route(Method::Put, path@, action), f),
                None => appended(old(self).routes@, r.routes@, plain_route(Method::Put, path@, action)),
            },
            *final(self) == *final(r),
    {
        self.add(Method::Put, path, action, modifier)
    }

    /// Registers `action` for PUT requests on `path`, as the route that
    /// `modifier` makes of the plain one.
    pub fn putm<F: FnOnce(Route<A>) -> Route<A>>(
        &mut self,
        path: &str,
        action: A,
        modifier: F,
    ) -> (r: &mut Router<A>)
        requires
            forall|x: Route<A>| modifier.requires((x,)),
        ensures
            appended_modified(old(self).routes@, r.routes@, plain_route(Method::Put, path@, action), modifier),
            *final(self) == *final(r),
    {
        self.add(Method::Put, path, action, Some(modifier))
    }

    /// Registers `action` for PUT requests on `path`, under `name`.
    pub fn putn(&mut self, path: &str, action: A, name: String) -> (r: &mut Router<A>)
        ensures
            appended(
                old(self).routes@,
                r.routes@,
                RouteView { name: Some(name@), ..plain_route(Method::Put, path@, action) },
            ),
            *final(self) == *final(r),
    {
        let route = Route::new(Method::Put, String::from_str(path), action).name(name);
        let ghost before = self.routes@;
        self.push_route(route);
        assert(self.routes@.drop_last() =~= before);
        self
    }

    /// Registers `action` for DELETE requests on `path`; where a modifier is
    /// given, the route it makes of the plain one.
    pub fn delete<F: FnOnce(Route<A>) -> Route<A>>(
        &mut self,
        path: &str,
        action: A,
        modifier: Option<F>,
    ) -> (r: &mut Router<A>)
        requires
            modifier matches Some(f) ==> forall|x: Route<A>| f.requires((x,)),
        ensures
            match modifier {
                Some(f) => appended_modified(old(self).routes@, r.routes@, plain_route(Method::Delete, path@, action), f),
                None => appended(old(self).routes@, r.routes@, plain_route(Method::Delete, path@, action)),
            },
            *final(self) == *final(r),
    {
        self.add(Method::Delete, path, action, modifier)
    }

    /// Registers `action` for DELETE requests on `path`, as the route that
    /// `modifier` makes of the plain one.
    pub fn deletem<F: FnOnce(Route<A>) -> Route<A>>(
        &mut self,
        path: &str,
        action: A,
        modifier: F,
    ) -> (r: &mut Router<A>)
        requires
            forall|x: Route<A>| modifier.requires((x,)),
        ensures
            appended_modified(old(self).routes@, r.routes@, plain_route(Method::Delete, path@, action), modifier),
            *final(self) == *final(r),
    {
        self.add(Method::Delete, path, action, Some(modifier))
    }

    /// Registers `action` for DELETE requests on `path`, under `name`.
    pub fn deleten(&mut self, path: &str, action: A, name: String) -> (r: &mut Router<A>)
        ensures
            appended(
                old(self).routes@,
                r.routes@,
                RouteView { name: Some(name@), ..plain_route(Method::Delete, path@, action) },
            ),
            *final(self) == *final(r),
    {
        let route = Route::new(Method::Delete, String::from_str(path), action).name(name);
        let ghost before = self.routes@;
        self.push_route(route);
        assert(self.routes@.drop_last() =~= before);
        self
    }

    /// Registers `action` for HEAD requests on `path`; where a modifier is
    /// given, the route it makes of the plain one.
    pub fn head<F: FnOnce(Route<A>) -> Route<A>>(
        &mut self,
        path: &str,
        action: A,
        modifier: Option<F>,
    ) -> (r: &mut Router<A>)
        requires
            modifier matches Some(f) ==> forall|x: Route<A>| f.requires((x,)),
        ensures
            match modifier {
                Some(f) => appended_modified(old(self).routes@, r.routes@, plain_route(Method::Head, path@, action), f),
                None => appended(old(self).routes@, r.routes@, plain_route(Method::Head, path@, action)),
            },
            *final(self) == *final(r),
    {
        self.add(Method::Head, path, action, modifier)
    }

    /// Registers `action` for HEAD requests on `path`, as the route that
    /// `modifier` makes of the plain one.
    pub fn headm<F: FnOnce(Route<A>) -> Route<A>>(
        &mut self,
        path: &str,
        action: A,
        modifier: F,
    ) -> (r: &mut Router<A>)
        requires
            forall|x: Route<A>| modifier.requires((x,)),
        ensures
            appended_modified(old(self).routes@, r.routes@, plain_route(Method::Head, path@, action), modifier),
            *final(self) == *final(r),
    {
        self.add(Method::Head, path, action, Some(modifier))
    }

    /// Registers `action` for HEAD requests on `path`, under `name`.
    pub fn headn(&mut self, path: &str, action: A, name: String) -> (r: &mut Router<A>)
        ensures
            appended(
                old(self).routes@,
                r.routes@,
                RouteView { name: Some(name@), ..plain_route(Method::Head, path@, action) },
            ),
            *final(self) == *final(r),
    {
        let route = Route::new(Method::Head, String::from_str(path), action).name(name);
        let ghost before = self.routes@;
        self.push_route(route);
        assert(self.routes@.drop_last() =~= before);
        self
    }

    /// Registers `action` for CONNECT requests on `path`; where a modifier is
    /// given, the route it makes of the plain one.
    pub fn connect<F: FnOnce(Route<A>) -> Route<A>>(
        &mut self,
        path: &str,
        action: A,
        modifier: Option<F>,
    ) -> (r: &mut Router<A>)
        requires
            modifier matches Some(f) ==> forall|x: Route<A>| f.requires((x,)),
        ensures
            match modifier {
                Some(f) => appended_modified(old(self).routes@, r.routes@, plain_route(Method::Connect, path@, action), f),
                None => appended(old(self).routes@, r.routes@, plain_route(Method::Connect, path@, action)),
            },
            *final(self) == *final(r),
    {
        self.add(Method::Connect, path, action, modifier)
    }

    /// Registers `action` for CONNECT requests on `path`, as the route that
    /// `modifier` makes of the plain one.
    pub fn connectm<F: FnOnce(Route<A>) -> Route<A>>(
        &mut self,
        path: &str,
        action: A,
        modifier: F,
    ) -> (r: &mut Router<A>)
        requires
            forall|x: Route<A>| modifier.requires((x,)),
        ensures
            appended_modified(old(self).routes@, r.routes@, plain_route(Method::Connect, path@, action), modifier),
            *final(self) == *final(r),
    {
        self.add(Method::Connect, path, action, Some(modifier))
    }

    /// Registers `action` for CONNECT requests on `path`, under `name`.
    pub fn connectn(&mut self, path: &str, action: A, name: String) -> (r: &mut Router<A>)
        ensures
            appended(
                old(self).routes@,
                r.routes@,
                RouteView { name: Some(name@), ..plain_route(Method::Connect, path@, action) },
            ),
            *final(self) == *final(r),
    {
        let route = Route::new(Method::Connect, String::from_str(path), action).name(name);
        let ghost before = self.routes@;
        self.push_route(route);
        assert(self.routes@.drop_last() =~= before);
        self
    }

    /// Registers `action` for OPTIONS requests on `path`; where a modifier is
    /// given, the route it makes of the plain one.
    pub fn options<F: FnOnce(Route<A>) -> Route<A>>(
        &mut self,
        path: &str,
        action: A,
        modifier: Option<F>,
    ) -> (r: &mut Router<A>)
        requires
            modifier matches Some(f) ==> forall|x: Route<A>| f.requires((x,)),
        ensures
            match modifier {
                Some(f) => appended_modified(old(self).routes@, r.routes@, plain_route(Method::Options, path@, action), f),
                None => appended(old(self).routes@, r.routes@, plain_route(Method::Options, path@, action)),
            },
            *final(self) == *final(r),
    {
        self.add(Method::Options, path, action, modifier)
    }

    /// Registers `action` for OPTIONS requests on `path`, as the route that
    /// `modifier` makes of the plain one.
    pub fn optionsm<F: FnOnce(Route<A>) -> Route<A>>(
        &mut self,
        path: &str,
        action: A,
        modifier: F,
    ) -> (r: &mut Router<A>)
        requires
            forall|x: Route<A>| modifier.requires((x,)),
        ensures
            appended_modified(old(self).routes@, r.routes@, plain_route(Method::Options, path@, action), modifier),
            *final(self) == *final(r),
    {
        self.add(Method::Options, path, action, Some(modifier))
    }

    /// Registers `action` for OPTIONS requests on `path`, under `name`.
    pub fn optionsn(&mut self, path: &str, action: A, name: String) -> (r: &mut Router<A>)
        ensures
            appended(
                old(self).routes@,
                r.routes@,
                RouteView { name: Some(name@), ..plain_route(Method::Options, path@, action) },
            ),
            *final(self) == *final(r),
    {
        let route = Route::new(Method::Options, String::from_str(path), action).name(name);
        let ghost before = self.routes@;
        self.push_route(route);
        assert(self.routes@.drop_last() =~= before);
        self
    }

    /// Registers `action` for TRACE requests on `path`; where a modifier is
    /// given, the route it makes of the plain one.
    pub fn trace<F: FnOnce(Route<A>) -> Route<A>>(
        &mut self,
        path: &str,
        action: A,
        modifier: Option<F>,
    ) -> (r: &mut Router<A>)
        requires
            modifier matches Some(f) ==> forall|x: Route<A>| f.requires((x,)),
        ensures
            match modifier {
                Some(f) => appended_modified(old(self).routes@, r.routes@, plain_route(Method::Trace, path@, action), f),
                None => appended(old(self).routes@, r.routes@, plain_route(Method::Trace, path@, action)),
            },
            *final(self) == *final(r),
    {
        self.add(Method::Trace, path, action, modifier)
    }

    /// Registers `action` for TRACE requests on `path`, as the route that
    /// `modifier` makes of the plain one.
    pub fn tracem<F: FnOnce(Route<A>) -> Route<A>>(
        &mut self,
        path: &str,
        action: A,
        modifier: F,
    ) -> (r: &mut Router<A>)
        requires
            forall|x: Route<A>| modifier.requires((x,)),
        ensures
            appended_modified(old(self).routes@, r.routes@, plain_route(Method::Trace, path@, action), modifier),
            *final(self) == *final(r),
    {
        self.add(Method::Trace, path, action, Some(modifier))
    }

    /// Registers `action` for TRACE requests on `path`, under `name`.
    pub fn tracen(&mut self, path: &str, action: A, name: String) -> (r: &mut Router<A>)
        ensures
            appended(
                old(self).routes@,
                r.routes@,
                RouteView { name: Some(name@), ..plain_route(Method::Trace, path@, action) },
            ),
            *final(self) == *final(r),
    {
        let route = Route::new(Method::Trace, String::from_str(path), action).name(name);
        let ghost before = self.routes@;
        self.push_route(route);
        assert(self.routes@.drop_last() =~= before);
        self
    }

    /// Finds the route for a request path and method: the first route whose
    /// template the path matches. Where that route answers another method, the
    /// answer is the error 405 "Method not allowed"; where no route matches, none.
    pub fn resolve_inner(&self, path: &str, method: &Method) -> (r: Result<
        Option<(&Route<A>, Vec<Reconciled>)>,
        HttpError,
    >)
        ensures
            resolves_to(self.routes@, path@, method@, r),
    {
        let mut i: usize = 0;
        while i < self.routes.len()
            invariant
                i <= self.routes@.len(),
                first_match(self.routes@.take(i as int), path@) is None,
            decreases self.routes@.len() - i,
        {
            let route = &self.routes[i];
            let (is_match, reconciled) = route.is_match(path);
            proof {
                assert(self.routes@.take(i + 1).drop_last() =~= self.routes@.take(i as int));
                assert(self.routes@.take(i + 1).last() == self.routes@[i as int]);
                lemma_first_match_prefix(self.routes@, path@, (i + 1) as int);
            }
            if is_match {
                return if !method.same_as(route.get_method()) {
                    Err(HttpError::new(405, String::from_str("Method not allowed")))
                } else {
                    Ok(Some((route, reconciled)))
                };
            }
            i = i + 1;
        }
        assert(self.routes@.take(i as int) =~= self.routes@);
        Ok(None)
    }
}

/// Where the first `k` routes hold a match, the first match of all routes is that one.
pub proof fn lemma_first_match_prefix<A>(routes: Seq<Route<A>>, path: Seq<char>, k: int)
    requires
        0 <= k <= routes.len(),
    ensures
        first_match(routes.take(k), path) is Some ==> first_match(routes, path) == first_match(
            routes.take(k),
            path,
        ),
    decreases routes.len() - k,
{
    if k < routes.len() {
        lemma_first_match_prefix(routes.drop_last(), path, k);
        assert(routes.drop_last().take(k) =~= routes.take(k));
    } else {
        assert(routes.take(k) =~= routes);
    }
}

/// Registering a route leaves the lookup of every path that an earlier route
/// matches as it was; a path that no earlier route matches goes to the new route
/// where its template matches.
pub proof fn lemma_register_keeps_earlier_matches<A>(routes: Seq<Route<A>>, route: Route<A>, path: Seq<char>)
    ensures
        first_match(routes.push(route), path) == (match first_match(routes, path) {
            Some(i) => Some(i),
            None => if path_matches(route@.path, path) {
                Some(routes.len() as int)
            } else {
                None
            },
        }),
{
    assert(routes.push(route).drop_last() =~= routes);
}

/// The first match is a route whose template the path matches, and no route
/// before it matches.
pub proof fn lemma_first_match_is_first<A>(routes: Seq<Route<A>>, path: Seq<char>)
    ensures
        match first_match(routes, path) {
            Some(i) => 0 <= i < routes.len() && path_matches(routes[i]@.path, path) && forall|j: int|
                0 <= j < i ==> !path_matches(#[trigger] routes[j]@.path, path),
            None => forall|j: int| 0 <= j < routes.len() ==> !path_matches(#[trigger] routes[j]@.path, path),
        },
    decreases routes.len(),
{
    if routes.len() > 0 {
        lemma_first_match_is_first(routes.drop_last(), path);
        assert forall|j: int| 0 <= j < routes.len() - 1 implies #[trigger] routes[j] == routes.drop_last()[j] by {}
    }
}

/// What a lookup answers, in terms of the routes themselves: where no route's
/// template matches the path, no route; where route `i` is the first whose
/// template matches, the error 405 "Method not allowed" if its method's name
/// differs from the request's, else that route with the pieces of the path.
pub proof fn lemma_lookup_answer<A>(
    routes: Seq<Route<A>>,
    path: Seq<char>,
    method: Seq<char>,
    r: Result<Option<(&Route<A>, Vec<Reconciled>)>, HttpError>,
    i: int,
)
    requires
        resolves_to(routes, path, method, r),
    ensures
        (forall|j: int| 0 <= j < routes.len() ==> !path_matches(#[trigger] routes[j]@.path, path)) ==> r matches Ok(
            None,
        ),
        0 <= i < routes.len() && path_matches(routes[i]@.path, path) && (forall|j: int|
            0 <= j < i ==> !path_matches(#[trigger] routes[j]@.path, path)) ==> {
            &&& routes[i]@.method != method ==> (r matches Err(e) && e@ == (405u16, "Method not allowed"@))
            &&& routes[i]@.method == method ==> (r matches Ok(Some(found)) && *found.0 == routes[i]
                && reconciled_views(found.1@) == reconcile(routes[i]@.path, path))
        },
{
    lemma_first_match_is_first(routes, path);
    match first_match(routes, path) {
        Some(k) => {
            if 0 <= i < routes.len() && path_matches(routes[i]@.path, path) && (forall|j: int|
                0 <= j < i ==> !path_matches(#[trigger] routes[j]@.path, path)) {
                if k < i {
                    assert(!path_matches(routes[k]@.path, path));
                } else if i < k {
                    assert(!path_matches(routes[i]@.path, path));
                }
                assert(k == i);
            }
            assert(path_matches(routes[k]@.path, path));
        },
        None => {},
    }
}

} // verus!
