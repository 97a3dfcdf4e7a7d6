use condey::condey::finish_response;
use condey::response::json_response;
use condey::{
    Condey, Dispatch, FromPathParam, Method, Path, Route, RouteMatch, Router, ServerError, Service,
};

fn route(method: Method, path: &str, handler: u32) -> Route<u32> {
    Route::new(method, path.to_string(), None, handler)
}

fn pairs(m: &RouteMatch) -> Vec<(&str, &str)> {
    m.params.iter().map(|(k, v)| (k.as_str(), v.as_str())).collect()
}

#[test]
fn literal_route_resolves_with_no_params() {
    let router = Router::compile(vec![
        route(Method::Get, "/a/:x", 1),
        route(Method::Get, "/a/b", 2),
        route(Method::Post, "/c", 3),
    ])
    .unwrap();
    let m = router.resolve(Method::Get, "/a/b").unwrap();
    assert_eq!(m.route, 1);
    assert_eq!(router.route(m.route).handler, 2);
    assert!(m.params.is_empty());
    let m = router.resolve(Method::Post, "/c/").unwrap();
    assert_eq!(router.route(m.route).handler, 3);
    assert!(m.params.is_empty());
}

#[test]
fn literal_segment_beats_capture() {
    let router =
        Router::compile(vec![route(Method::Get, "/a/b", 10), route(Method::Get, "/a/:x", 20)])
            .unwrap();
    let m = router.resolve(Method::Get, "/a/b").unwrap();
    assert_eq!(router.route(m.route).handler, 10);
    let m = router.resolve(Method::Get, "/a/c").unwrap();
    assert_eq!(router.route(m.route).handler, 20);
    assert_eq!(pairs(&m), vec![("x", "c")]);
}

#[test]
fn literal_preferred_at_first_difference() {
    let router = Router::compile(vec![
        route(Method::Get, "/:a/b/c", 1),
        route(Method::Get, "/x/:b/:c", 2),
    ])
    .unwrap();
    let m = router.resolve(Method::Get, "/x/b/c").unwrap();
    assert_eq!(router.route(m.route).handler, 2);
    assert_eq!(pairs(&m), vec![("b", "b"), ("c", "c")]);
}

#[test]
fn captures_come_in_declared_order() {
    let router =
        Router::compile(vec![route(Method::Get, "/users/:zeta/posts/:alpha", 1)]).unwrap();
    let m = router.resolve(Method::Get, "/users/ab%20c/posts/9").unwrap();
    assert_eq!(pairs(&m), vec![("zeta", "ab%20c"), ("alpha", "9")]);
}

#[test]
fn unmatched_trailing_segments_are_not_found() {
    let router = Router::compile(vec![route(Method::Get, "/a/:x", 1)]).unwrap();
    assert!(router.resolve(Method::Get, "/a/b/c").is_none());
    assert!(router.resolve(Method::Get, "/a").is_none());
}

#[test]
fn get_route_answers_head() {
    let router = Router::compile(vec![route(Method::Get, "/items/:id", 5)]).unwrap();
    let g = router.resolve(Method::Get, "/items/3").unwrap();
    let h = router.resolve(Method::Head, "/items/3").unwrap();
    assert_eq!(g.route, h.route);
    assert_eq!(pairs(&g), pairs(&h));
    assert!(router.resolve(Method::Post, "/items/3").is_none());
}

#[test]
fn unknown_path_is_404_and_other_method_is_405() {
    let router = Router::compile(vec![route(Method::Get, "/items", 1)]).unwrap();
    assert!(matches!(router.dispatch(Method::Get, "/nothing"), Dispatch::NotFound));
    assert_eq!(router.not_found_or_method_not_allowed("/nothing").as_u16(), 404);
    assert!(matches!(router.dispatch(Method::Post, "/items"), Dispatch::MethodNotAllowed));
    assert_eq!(router.not_found_or_method_not_allowed("/items").as_u16(), 405);
    assert!(matches!(router.dispatch(Method::Get, "/items"), Dispatch::Found(_)));
}

#[test]
fn resolving_twice_gives_the_same_match() {
    let router = Router::compile(vec![
        route(Method::Get, "/a/:x/:y", 1),
        route(Method::Get, "/a/b/:y", 2),
    ])
    .unwrap();
    let first = router.resolve(Method::Get, "/a/b/c").unwrap();
    let second = router.resolve(Method::Get, "/a/b/c").unwrap();
    assert_eq!(first.route, second.route);
    assert_eq!(pairs(&first), pairs(&second));
    assert_eq!(router.route(first.route).handler, 2);
}

#[test]
fn conflicting_routes_fail_to_compile() {
    let r = Router::compile(vec![route(Method::Get, "/a/:x", 1), route(Method::Get, "/a/:y/", 2)]);
    assert!(r.is_err());
    let r = Router::compile(vec![route(Method::Get, "/a", 1), route(Method::Head, "/a", 2)]);
    assert!(r.is_err());
    let r = Router::compile(vec![route(Method::Get, "/a", 1), route(Method::Post, "/a", 2)]);
    assert!(r.is_ok());
    match Router::compile(vec![route(Method::Get, "/a/:x", 1), route(Method::Get, "/a/:y/", 2)]) {
        Err(ServerError::MountPathError { method, path }) => {
            assert_eq!(method, Method::Get);
            assert_eq!(path, "/a/:y/");
        }
        _ => panic!("expected a conflict"),
    }
    match Router::compile(vec![route(Method::Get, "/a", 1), route(Method::Head, "a", 2)]) {
        Err(ServerError::MountPathError { method, path }) => {
            assert_eq!(method, Method::Head);
            assert_eq!(path, "a");
        }
        _ => panic!("expected a conflict"),
    }
}

#[test]
fn empty_router_finds_nothing() {
    let router: Router<u32> = Router::compile(vec![]).unwrap();
    assert_eq!(router.len(), 0);
    assert!(matches!(router.dispatch(Method::Get, "/"), Dispatch::NotFound));
}

#[test]
fn mount_joins_prefix_and_path() {
    let app: Condey<u32, ()> = Condey::init().mount(
        "/api/",
        vec![route(Method::Get, "//items/:id", 1), route(Method::Post, "items", 2)],
    );
    let service = Service::try_from(app).unwrap();
    let router = service.router();
    assert_eq!(router.route(0).path, "/api/items/:id");
    assert_eq!(router.route(1).path, "/api/items");
    match service.dispatch(Method::Get, "/api/items/7") {
        Dispatch::Found(m) => {
            assert_eq!(m.route, 0);
            assert_eq!(pairs(&m), vec![("id", "7")]);
        }
        _ => panic!("expected a match"),
    }
}

#[test]
fn get_item_example_end_to_end() {
    let app: Condey<u32, ()> = Condey::init().mount("/api", vec![route(Method::Get, "/items/:id", 1)]);
    let service = Service::try_from(app).unwrap();
    let found = match service.dispatch(Method::Get, "/api/items/7") {
        Dispatch::Found(m) => m,
        _ => panic!("expected a match"),
    };
    assert_eq!(pairs(&found), vec![("id", "7")]);
    let Path((id,)) = Path::<(u64,)>::from_params(&found.params).unwrap();
    assert_eq!(id, 7);
    assert_eq!(u64::from_path_param("7"), Ok(7));

    let mut item = serde_json::Map::new();
    item.insert("id".to_string(), serde_json::Value::from(id));
    item.insert("name".to_string(), serde_json::Value::from(format!("item {}", id)));
    let body = serde_json::to_vec(&serde_json::Value::Object(item)).unwrap();
    let response = finish_response(json_response(body));
    assert_eq!(response.status.as_u16(), 200);
    assert!(response
        .headers
        .contains(&("content-type".to_string(), "application/json".to_string())));
    assert_eq!(String::from_utf8(response.body).unwrap(), "{\"id\":7,\"name\":\"item 7\"}");

    match service.dispatch(Method::Head, "/api/items/7") {
        Dispatch::Found(m) => assert_eq!(m.route, found.route),
        _ => panic!("HEAD should follow GET"),
    }
    assert!(matches!(service.dispatch(Method::Post, "/api/items/7"), Dispatch::MethodNotAllowed));
    assert!(matches!(service.dispatch(Method::Get, "/items/7"), Dispatch::NotFound));
}

#[test]
fn literal_branch_without_match_falls_back_to_capture() {
    let router = Router::compile(vec![
        route(Method::Get, "/a/x", 1),
        route(Method::Get, "/:y/z", 2),
        route(Method::Get, "/a/:w/q", 3),
        route(Method::Get, "/:p/:q/:r", 4),
    ])
    .unwrap();
    let m = router.resolve(Method::Get, "/a/z").unwrap();
    assert_eq!(router.route(m.route).handler, 2);
    assert_eq!(pairs(&m), vec![("y", "a")]);
    let m = router.resolve(Method::Get, "/a/b/q").unwrap();
    assert_eq!(router.route(m.route).handler, 3);
    assert_eq!(pairs(&m), vec![("w", "b")]);
    let m = router.resolve(Method::Get, "/a/b/c").unwrap();
    assert_eq!(router.route(m.route).handler, 4);
    assert_eq!(pairs(&m), vec![("p", "a"), ("q", "b"), ("r", "c")]);
    assert!(router.resolve(Method::Get, "/b/x").is_none());
}

#[test]
fn root_route_matches_empty_path() {
    let router = Router::compile(vec![route(Method::Get, "/", 1), route(Method::Get, "/:x", 2)]).unwrap();
    let m = router.resolve(Method::Get, "").unwrap();
    assert_eq!(router.route(m.route).handler, 1);
    let m = router.resolve(Method::Get, "//").unwrap();
    assert_eq!(router.route(m.route).handler, 1);
    let m = router.resolve(Method::Get, "/k").unwrap();
    assert_eq!(router.route(m.route).handler, 2);
}
