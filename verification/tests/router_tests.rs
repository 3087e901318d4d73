use dino_server::{
    build_router, AppError, Method, ProjectRoute, ProjectRoutes, SwappableAppRouter,
};

fn route(method: Method, handler: &str) -> ProjectRoute {
    ProjectRoute { method, handler: handler.to_string() }
}

fn fixture_routes() -> ProjectRoutes {
    vec![
        ("/api/hello/:id".to_string(), vec![route(Method::Get, "hello")]),
        ("/api/:name/:id".to_string(), vec![route(Method::Post, "hello4")]),
    ]
}

#[test]
fn app_router_match_should_work() {
    let router = SwappableAppRouter::try_new("", fixture_routes()).unwrap();
    let app_router = router.load();
    let m = app_router.match_it(Method::Get, "/api/hello/1").unwrap();
    assert_eq!(m.value, "hello");
    assert_eq!(m.params.get("id"), Some("1"));

    let m = app_router.match_it(Method::Post, "/api/zzq/2").unwrap();
    assert_eq!(m.value, "hello4");
    assert_eq!(m.params.get("id"), Some("2"));
    assert_eq!(m.params.get("name"), Some("zzq"));
}

#[test]
fn app_router_swap_should_work() {
    let router = SwappableAppRouter::try_new("", fixture_routes()).unwrap();
    let app_router = router.load();
    let m = app_router.match_it(Method::Get, "/api/hello/1").unwrap();
    assert_eq!(m.value, "hello");
    assert_eq!(m.params.get("id"), Some("1"));

    let new_routes: ProjectRoutes =
        vec![("/api/:name/:id".to_string(), vec![route(Method::Post, "handler2")])];
    router.swap("", new_routes).unwrap();
    let app_router = router.load();
    let m = app_router.match_it(Method::Post, "/api/zzq/2").unwrap();
    assert_eq!(m.value, "handler2");
    assert_eq!(m.params.get("id"), Some("2"));
    assert_eq!(m.params.get("name"), Some("zzq"));
}

#[test]
fn match_is_deterministic() {
    let router = SwappableAppRouter::try_new("", fixture_routes()).unwrap();
    let app_router = router.load();
    let m1 = app_router.match_it(Method::Get, "/api/hello/7").unwrap();
    let m2 = app_router.match_it(Method::Get, "/api/hello/7").unwrap();
    assert_eq!(m1.value, m2.value);
    assert_eq!(m1.params.pairs, m2.params.pairs);
}

#[test]
fn static_route_beats_capture() {
    let routes: ProjectRoutes = vec![
        ("/a/:x".to_string(), vec![route(Method::Get, "capture")]),
        ("/a/b".to_string(), vec![route(Method::Get, "static_one")]),
    ];
    let router = build_router(&routes).unwrap();
    let m = router.lookup(Method::Get, "/a/b").unwrap();
    assert_eq!(m.value, "static_one");
    let m = router.lookup(Method::Get, "/a/c").unwrap();
    assert_eq!(m.value, "capture");
}

#[test]
fn root_pattern_matches_root_only() {
    let routes: ProjectRoutes = vec![("/".to_string(), vec![route(Method::Get, "root")])];
    let router = build_router(&routes).unwrap();
    let m = router.lookup(Method::Get, "/").unwrap();
    assert_eq!(m.value, "root");
    assert!(matches!(
        router.lookup(Method::Get, "/x"),
        Err(AppError::RoutePathNotFound(_))
    ));
    assert!(matches!(
        router.lookup(Method::Get, ""),
        Err(AppError::RoutePathNotFound(_))
    ));
}

#[test]
fn trailing_slash_is_significant() {
    let routes: ProjectRoutes = vec![("/foo".to_string(), vec![route(Method::Get, "foo")])];
    let router = build_router(&routes).unwrap();
    assert!(router.lookup(Method::Get, "/foo").is_ok());
    assert!(matches!(
        router.lookup(Method::Get, "/foo/"),
        Err(AppError::RoutePathNotFound(_))
    ));
}

#[test]
fn capture_needs_nonempty_segment() {
    let routes: ProjectRoutes = vec![("/a/:x".to_string(), vec![route(Method::Get, "h")])];
    let router = build_router(&routes).unwrap();
    assert!(matches!(
        router.lookup(Method::Get, "/a/"),
        Err(AppError::RoutePathNotFound(_))
    ));
}

#[test]
fn method_not_allowed_on_matched_path() {
    let router = build_router(&fixture_routes()).unwrap();
    let e = router.lookup(Method::Post, "/api/hello/1").unwrap_err();
    assert!(matches!(e, AppError::RouteMethodNotAllowed(Method::Post)));
    assert_eq!(e.status_code(), 405);
    assert!(e.message().contains("MethodNotAllowed"));
}

#[test]
fn path_not_found_reports_path() {
    let router = build_router(&fixture_routes()).unwrap();
    let e = router.lookup(Method::Get, "/nope").unwrap_err();
    match &e {
        AppError::RoutePathNotFound(p) => assert_eq!(p, "/nope"),
        other => panic!("unexpected error: {:?}", other),
    }
    assert_eq!(e.status_code(), 404);
    assert_eq!(e.message(), "PathNotFound: /nope");
}

#[test]
fn duplicate_method_is_config_error() {
    let routes: ProjectRoutes = vec![(
        "/a".to_string(),
        vec![route(Method::Get, "one"), route(Method::Get, "two")],
    )];
    assert!(matches!(build_router(&routes), Err(AppError::Config(_))));
}

#[test]
fn conflicting_patterns_are_config_error() {
    let routes: ProjectRoutes = vec![
        ("/a/:x".to_string(), vec![route(Method::Get, "one")]),
        ("/a/:y".to_string(), vec![route(Method::Post, "two")]),
    ];
    assert!(matches!(build_router(&routes), Err(AppError::Config(_))));
}

#[test]
fn duplicate_path_is_config_error() {
    let routes: ProjectRoutes = vec![
        ("/a".to_string(), vec![route(Method::Get, "one")]),
        ("/a".to_string(), vec![route(Method::Post, "two")]),
    ];
    assert!(matches!(build_router(&routes), Err(AppError::Config(_))));
}

#[test]
fn invalid_patterns_are_config_errors() {
    for bad in ["", "a/b", ":x", "/a/:"] {
        let routes: ProjectRoutes = vec![(bad.to_string(), vec![route(Method::Get, "h")])];
        assert!(
            matches!(build_router(&routes), Err(AppError::Config(_))),
            "pattern {:?} should be rejected",
            bad
        );
    }
}

#[test]
fn empty_group_and_empty_handler_are_config_errors() {
    let routes: ProjectRoutes = vec![("/a".to_string(), vec![])];
    assert!(matches!(build_router(&routes), Err(AppError::Config(_))));
    let routes: ProjectRoutes = vec![("/a".to_string(), vec![route(Method::Get, "")])];
    assert!(matches!(build_router(&routes), Err(AppError::Config(_))));
}

#[test]
fn method_parse_is_case_insensitive() {
    assert_eq!(Method::parse("get"), Some(Method::Get));
    assert_eq!(Method::parse("GeT"), Some(Method::Get));
    assert_eq!(Method::parse("POST"), Some(Method::Post));
    assert_eq!(Method::parse("options"), Some(Method::Options));
    assert_eq!(Method::parse("connect"), Some(Method::Connect));
    assert_eq!(Method::parse("BREW"), None);
    assert_eq!(Method::parse(""), None);
    assert_eq!(Method::Delete.as_str(), "DELETE");
    assert_eq!(Method::Patch.as_str(), "PATCH");
}
