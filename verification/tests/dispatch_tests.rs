use dino_server::{
    batch_needs_swap, get_router_by_host, handle_request, path_is_relevant, strip_port, AppError,
    AppState, JsWorker, Method, ProjectRoute, ProjectRoutes, SwappableAppRouter, TenentRouter,
};

const ID_CODE: &str = r#"(function(){async function hello(req){return{status:200,headers:{},body:req.params.id};}return{hello:hello};})();"#;

fn hello_routes() -> ProjectRoutes {
    vec![(
        "/api/hello/:id".to_string(),
        vec![ProjectRoute { method: Method::Get, handler: "hello".to_string() }],
    )]
}

fn state_with(host: &str, code: &str, routes: ProjectRoutes) -> AppState {
    let router = SwappableAppRouter::try_new(code, routes).unwrap();
    AppState::from_routers(vec![TenentRouter::new(host, router)])
}

#[test]
fn dispatch_serves_handler_result() {
    let state = state_with("localhost", ID_CODE, hello_routes());
    let res = handle_request(
        &state,
        "localhost:8080",
        Method::Get,
        "/api/hello/42",
        "/api/hello/42",
        vec![],
        vec![],
        None,
    )
    .unwrap();
    assert_eq!(res.status, 200);
    assert_eq!(res.body.as_deref(), Some("42"));
}

#[test]
fn dispatch_rejects_wrong_method() {
    let state = state_with("localhost", ID_CODE, hello_routes());
    let e = handle_request(
        &state,
        "localhost:8080",
        Method::Post,
        "/api/hello/42",
        "/api/hello/42",
        vec![],
        vec![],
        None,
    )
    .unwrap_err();
    assert_eq!(e.status_code(), 405);
    assert!(e.message().contains("MethodNotAllowed"));
}

#[test]
fn dispatch_rejects_unknown_path() {
    let state = state_with("localhost", ID_CODE, hello_routes());
    let e = handle_request(
        &state,
        "localhost:8080",
        Method::Get,
        "/nope",
        "/nope",
        vec![],
        vec![],
        None,
    )
    .unwrap_err();
    assert_eq!(e.status_code(), 404);
    assert!(e.message().contains("PathNotFound"));
}

#[test]
fn dispatch_rejects_unknown_host() {
    let state = state_with("localhost", ID_CODE, hello_routes());
    let e = handle_request(
        &state,
        "elsewhere:8080",
        Method::Get,
        "/api/hello/1",
        "/api/hello/1",
        vec![],
        vec![],
        None,
    )
    .unwrap_err();
    assert_eq!(e.status_code(), 404);
    assert_eq!(e.message(), "HostNotFound: elsewhere");
}

#[test]
fn two_methods_on_one_path_select_their_handlers() {
    let code = r#"(function(){function a(req){return{status:200,headers:{},body:"a"};}function b(req){return{status:201,headers:{},body:"b"};}return{a:a,b:b};})();"#;
    let routes: ProjectRoutes = vec![(
        "/r".to_string(),
        vec![
            ProjectRoute { method: Method::Get, handler: "a".to_string() },
            ProjectRoute { method: Method::Post, handler: "b".to_string() },
        ],
    )];
    let state = state_with("localhost", code, routes);
    let res =
        handle_request(&state, "localhost", Method::Get, "/r", "/r", vec![], vec![], None).unwrap();
    assert_eq!(res.status, 200);
    let res = handle_request(&state, "localhost", Method::Post, "/r", "/r", vec![], vec![], None)
        .unwrap();
    assert_eq!(res.status, 201);
}

#[test]
fn swap_publishes_new_bundle_and_keeps_old_handles() {
    let holder = SwappableAppRouter::try_new(ID_CODE, hello_routes()).unwrap();
    let before = holder.load();

    let v2 = r#"(function(){async function hello(req){return{status:200,headers:{},body:"v2"};}return{hello:hello};})();"#;
    holder.swap(v2, hello_routes()).unwrap();

    // A request begun after the swap sees the new bundle.
    let after = holder.load();
    let m = after.match_it(Method::Get, "/api/hello/1").unwrap();
    let worker = JsWorker::try_new(after.code().as_str()).unwrap();
    let req = dino_server::Req::builder().method("GET").url("/api/hello/1").build();
    let res = worker.run(m.value.as_str(), req).unwrap();
    assert_eq!(res.body.as_deref(), Some("v2"));

    // A handle loaded before the swap still serves the old bundle.
    let m = before.match_it(Method::Get, "/api/hello/1").unwrap();
    let worker = JsWorker::try_new(before.code().as_str()).unwrap();
    let req = dino_server::Req::builder()
        .method("GET")
        .url("/api/hello/1")
        .params(vec![("id".to_string(), "1".to_string())])
        .build();
    let res = worker.run(m.value.as_str(), req).unwrap();
    assert_eq!(res.body.as_deref(), Some("1"));
}

#[test]
fn host_with_port_is_routed_normally() {
    let state = state_with("example.com", ID_CODE, hello_routes());
    let res = handle_request(
        &state,
        "example.com:9000",
        Method::Get,
        "/api/hello/7",
        "/api/hello/7",
        vec![],
        vec![],
        None,
    )
    .unwrap();
    assert_eq!(res.status, 200);
    assert_eq!(res.body.as_deref(), Some("7"));
}

#[test]
fn host_lookup_ignores_port() {
    let state = state_with("example.com", ID_CODE, hello_routes());
    assert!(get_router_by_host("example.com:8080", &state).is_ok());
    assert!(get_router_by_host("example.com", &state).is_ok());
    let e1 = get_router_by_host("nowhere:8080", &state).unwrap_err();
    let e2 = get_router_by_host("nowhere", &state).unwrap_err();
    assert_eq!(e1.message(), e2.message());
    assert_eq!(strip_port("example.com:8080"), "example.com");
    assert_eq!(strip_port("example.com"), "example.com");
    assert_eq!(strip_port("a:b:c"), "a");
}

#[test]
fn registry_insert_and_remove() {
    let router = SwappableAppRouter::try_new(ID_CODE, hello_routes()).unwrap();
    let mut state = AppState::empty();
    assert!(get_router_by_host("h", &state).is_err());
    state.insert("h".to_string(), router);
    assert!(get_router_by_host("h:9", &state).is_ok());
    state.remove(&"h".to_string());
    assert!(matches!(
        get_router_by_host("h", &state),
        Err(AppError::HostNotFound(_))
    ));
}

#[test]
fn relevance_filter_selects_config_and_script_files() {
    assert!(path_is_relevant("config.yml"));
    assert!(path_is_relevant("proj/config.yml"));
    assert!(!path_is_relevant("proj/xconfig.yml"));
    assert!(path_is_relevant("src/app.ts"));
    assert!(path_is_relevant("out/bundle.mjs"));
    assert!(!path_is_relevant("notes.txt"));
    assert!(!path_is_relevant("src/.ts"));
    assert!(!path_is_relevant("no_extension"));

    assert!(batch_needs_swap(&vec![
        "a.txt".to_string(),
        "b/config.yml".to_string()
    ]));
    assert!(!batch_needs_swap(&vec!["a.txt".to_string()]));
    assert!(!batch_needs_swap(&vec![]));
}
