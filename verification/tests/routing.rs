use framework::http::error::HttpError;
use framework::http::request::HttpRequest;
use framework::routing::route::{Method, Reconciled, Route};
use framework::routing::router::Router;

type Modifier = fn(Route<&'static str>) -> Route<&'static str>;

fn router() -> Router<&'static str> {
    Router::new(|r: &mut Router<&'static str>| {
        r.get("/", "home")
            .getn("/users/{id}", "user", "user.show".to_string())
            .post("/users/{id}", "update", None::<Modifier>)
            .deletem("/posts/{post}/comments/{comment}", "remove", |route: Route<&'static str>| {
                route.name("comment.delete".to_string())
            });
    })
}

fn found(
    r: Result<Option<(&Route<&'static str>, Vec<Reconciled>)>, HttpError>,
) -> (&'static str, Vec<Reconciled>) {
    match r {
        Ok(Some((route, rec))) => (*route.action(), rec),
        Ok(None) => panic!("no route"),
        Err(e) => panic!("error {}", e.to_string()),
    }
}

#[test]
fn router_registers_in_order() {
    let router = router();
    assert_eq!(router.routes.len(), 4);
    assert_eq!(router.routes[0].path(), "/");
    assert_eq!(router.routes[1].get_name().unwrap(), "user.show");
    assert_eq!(router.routes[2].get_method(), &Method::Post);
    assert_eq!(router.routes[3].get_name().unwrap(), "comment.delete");
    assert_eq!(router.routes[3].get_method(), &Method::Delete);
}

#[test]
fn resolve_root() {
    let router = router();
    let (action, rec) = found(router.resolve_inner("/", &Method::Get));
    assert_eq!(action, "home");
    assert_eq!(rec.len(), 2);
}

#[test]
fn resolve_records_variables() {
    let router = router();
    let (action, rec) = found(router.resolve_inner("/posts/7/comments/42", &Method::Delete));
    assert_eq!(action, "remove");
    let request = HttpRequest::new((), rec);
    assert_eq!(request.var("post").unwrap(), "7");
    assert_eq!(request.var("comment").unwrap(), "42");
    assert_eq!(request.var("posts"), None);
}

#[test]
fn resolve_first_match_with_other_method_is_405() {
    let router = router();
    // the first route for /users/{id} answers GET, so a POST is refused
    let error = router.resolve_inner("/users/5", &Method::Post).unwrap_err();
    assert_eq!(error.code(), 405);
    assert_eq!(error.message(), "Method not allowed");
}

#[test]
fn resolve_unknown_path_is_none() {
    let router = router();
    assert!(router.resolve_inner("/nothing", &Method::Get).unwrap().is_none());
    // a variable takes a non-empty segment only
    assert!(router.resolve_inner("/users/", &Method::Get).unwrap().is_none());
    // segments are counted exactly
    assert!(router.resolve_inner("/users/5/extra", &Method::Get).unwrap().is_none());
}

#[test]
fn resolve_extension_method() {
    let mut router: Router<&'static str> = Router::new(|_r: &mut Router<&'static str>| {});
    router.add(Method::Other("PURGE".to_string()), "/cache", "purge", None::<Modifier>);
    let (action, _) = found(router.resolve_inner("/cache", &Method::Other("PURGE".to_string())));
    assert_eq!(action, "purge");
    assert_eq!(router.resolve_inner("/cache", &Method::Get).unwrap_err().code(), 405);
}

#[test]
fn all_method_helpers_register_their_method() {
    let mut router: Router<u8> = Router::new(|_r: &mut Router<u8>| {});
    type M = fn(Route<u8>) -> Route<u8>;
    router
        .get("/a", 0)
        .post("/a", 1, None::<M>)
        .patch("/a", 2, None::<M>)
        .put("/a", 3, None::<M>)
        .delete("/a", 4, None::<M>)
        .head("/a", 5, None::<M>)
        .connect("/a", 6, None::<M>)
        .options("/a", 7, None::<M>)
        .trace("/a", 8, None::<M>);
    router
        .getm("/b", 9, |r: Route<u8>| r)
        .postm("/b", 10, |r: Route<u8>| r)
        .patchm("/b", 11, |r: Route<u8>| r)
        .putm("/b", 12, |r: Route<u8>| r)
        .deletem("/b", 13, |r: Route<u8>| r)
        .headm("/b", 14, |r: Route<u8>| r)
        .connectm("/b", 15, |r: Route<u8>| r)
        .optionsm("/b", 16, |r: Route<u8>| r)
        .tracem("/b", 17, |r: Route<u8>| r);
    router
        .getn("/c", 18, "g".to_string())
        .postn("/c", 19, "p".to_string())
        .patchn("/c", 20, "pa".to_string())
        .putn("/c", 21, "pu".to_string())
        .deleten("/c", 22, "d".to_string())
        .headn("/c", 23, "h".to_string())
        .connectn("/c", 24, "c".to_string())
        .optionsn("/c", 25, "o".to_string())
        .tracen("/c", 26, "t".to_string());
    let names = ["GET", "POST", "PATCH", "PUT", "DELETE", "HEAD", "CONNECT", "OPTIONS", "TRACE"];
    assert_eq!(router.routes.len(), 27);
    for (i, route) in router.routes.iter().enumerate() {
        assert_eq!(*route.action() as usize, i);
        assert_eq!(route.get_method().as_str(), names[i % 9]);
    }
    assert_eq!(router.routes[26].get_name().unwrap(), "t");
}

#[test]
fn later_route_does_not_shadow_earlier_one() {
    let mut router: Router<u8> = Router::new(|_r: &mut Router<u8>| {});
    router.get("/x/{a}", 1);
    router.get("/x/y", 2);
    match router.resolve_inner("/x/y", &Method::Get) {
        Ok(Some((route, _))) => assert_eq!(*route.action(), 1),
        _ => panic!("expected the first route"),
    }
}

#[test]
fn route_is_match_reports_pieces() {
    let route = Route::new(Method::Get, "/a/{b}".to_string(), ());
    let (ok, rec) = route.is_match("/a/zz");
    assert!(ok);
    assert_eq!(rec.len(), 3);
    match &rec[2] {
        Reconciled::Variable { handle, value } => {
            assert_eq!(handle, "b");
            assert_eq!(value, "zz");
        }
        _ => panic!("expected a variable"),
    }
    match &rec[1] {
        Reconciled::Static { segment } => assert_eq!(segment, "a"),
        _ => panic!("expected a static segment"),
    }
    let (ok, rec) = route.is_match("/b/zz");
    assert!(!ok);
    assert!(rec.is_empty());
}

#[test]
fn request_variable_last_one_wins() {
    let rec = vec![
        Reconciled::Variable { handle: "x".to_string(), value: "1".to_string() },
        Reconciled::Static { segment: "s".to_string() },
        Reconciled::Variable { handle: "x".to_string(), value: "2".to_string() },
    ];
    let request = HttpRequest::new(5u32, rec);
    assert_eq!(request.var("x").unwrap(), "2");
    assert_eq!(*request.inner(), 5u32);
}

#[test]
fn method_names() {
    assert!(Method::Get.same_as(&Method::Get));
    assert!(!Method::Get.same_as(&Method::Post));
    assert!(Method::Other("GET".to_string()).same_as(&Method::Get));
    assert_eq!(Method::Options.as_str(), "OPTIONS");
}
