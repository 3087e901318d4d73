use dino_server::{build_response, AppError, JsWorker, Req, Res};

const ECHO_CODE: &str = r#"
        (function(){async function hello(req){return{status:200,headers:{"content-type":"application/json"},body: JSON.stringify(req)};}return{hello:hello};})();"#;

#[test]
fn js_worker_should_run() {
    let req = Req::builder()
        .method("GET")
        .url("http://localhost:8080")
        .headers(Vec::new())
        .build();
    let worker = JsWorker::try_new(ECHO_CODE).unwrap();
    let ret = worker.run("hello", req).unwrap();
    assert_eq!(ret.status, 200);
}

#[test]
fn engine_js_worker_should_run() {
    let req = Req::builder()
        .method("GET")
        .url("http://localhost:8080")
        .headers(Vec::new())
        .build();
    let worker = JsWorker::try_new(ECHO_CODE).unwrap();
    let ret = worker.run("hello", req).unwrap();
    assert_eq!(ret.status, 200);
}

#[test]
fn request_round_trips_through_guest() {
    let req = Req::builder()
        .method("GET")
        .url("http://localhost:8080")
        .query(vec![("q".to_string(), "1".to_string())])
        .params(vec![("id".to_string(), "42".to_string())])
        .headers(vec![("host".to_string(), "localhost".to_string())])
        .build();
    let worker = JsWorker::try_new(ECHO_CODE).unwrap();
    let ret = worker.run("hello", req).unwrap();
    assert_eq!(ret.status, 200);
    assert_eq!(
        ret.headers,
        vec![("content-type".to_string(), "application/json".to_string())]
    );
    let expected = r#"{"method":"GET","url":"http://localhost:8080","body":null,"query":{"q":"1"},"params":{"id":"42"},"headers":{"host":"localhost"}}"#;
    assert_eq!(ret.body.as_deref(), Some(expected));
}

#[test]
fn absent_body_round_trips_to_empty_body() {
    let code = r#"(function(){function h(req){return{status:204,headers:{},body:null};}return{h:h};})();"#;
    let worker = JsWorker::try_new(code).unwrap();
    let req = Req::builder().method("GET").url("/").build();
    let ret = worker.run("h", req).unwrap();
    assert_eq!(ret.status, 204);
    assert_eq!(ret.body, None);
    let code = r#"(function(){function h(req){return{status:204,headers:{}};}return{h:h};})();"#;
    let worker = JsWorker::try_new(code).unwrap();
    let req = Req::builder().method("GET").url("/").build();
    let ret = worker.run("h", req).unwrap();
    assert_eq!(ret.body, None);
}

#[test]
fn synchronous_handler_is_accepted() {
    let code = r#"(function(){function h(req){return{status:201,headers:{},body:"ok"};}return{h:h};})();"#;
    let worker = JsWorker::try_new(code).unwrap();
    let req = Req::builder().method("PUT").url("/x").build();
    let ret = worker.run("h", req).unwrap();
    assert_eq!(ret.status, 201);
    assert_eq!(ret.body.as_deref(), Some("ok"));
}

fn status_code_worker(status: &str) -> Result<Res, AppError> {
    let code = format!(
        r#"(function(){{function h(req){{return{{status:{},headers:{{}},body:null}};}}return{{h:h}};}})();"#,
        status
    );
    let worker = JsWorker::try_new(&code).unwrap();
    let req = Req::builder().method("GET").url("/").build();
    worker.run("h", req)
}

#[test]
fn status_bounds_are_enforced() {
    assert!(matches!(status_code_worker("99"), Err(AppError::Marshal(_))));
    assert!(matches!(status_code_worker("600"), Err(AppError::Marshal(_))));
    assert_eq!(status_code_worker("100").unwrap().status, 100);
    assert_eq!(status_code_worker("599").unwrap().status, 599);
}

#[test]
fn missing_handler_is_script_runtime_error() {
    let worker = JsWorker::try_new(ECHO_CODE).unwrap();
    let req = Req::builder().method("GET").url("/").build();
    assert!(matches!(
        worker.run("nope", req),
        Err(AppError::ScriptRuntime(_))
    ));
}

#[test]
fn throwing_handler_is_script_runtime_error() {
    let code = r#"(function(){function h(req){throw new Error("boom");}return{h:h};})();"#;
    let worker = JsWorker::try_new(code).unwrap();
    let req = Req::builder().method("GET").url("/").build();
    let e = worker.run("h", req).unwrap_err();
    match e {
        AppError::ScriptRuntime(msg) => assert!(msg.contains("boom"), "message: {}", msg),
        other => panic!("unexpected error: {:?}", other),
    }
}

#[test]
fn rejecting_handler_is_script_runtime_error() {
    let code = r#"(function(){async function h(req){throw new Error("nope");}return{h:h};})();"#;
    let worker = JsWorker::try_new(code).unwrap();
    let req = Req::builder().method("GET").url("/").build();
    assert!(matches!(
        worker.run("h", req),
        Err(AppError::ScriptRuntime(_))
    ));
}

#[test]
fn non_string_header_value_is_marshal_error() {
    let code = r#"(function(){function h(req){return{status:200,headers:{n:5},body:null};}return{h:h};})();"#;
    let worker = JsWorker::try_new(code).unwrap();
    let req = Req::builder().method("GET").url("/").build();
    assert!(matches!(worker.run("h", req), Err(AppError::Marshal(_))));
}

#[test]
fn non_object_module_is_script_load_error() {
    assert!(matches!(
        JsWorker::try_new("42;"),
        Err(AppError::ScriptLoad(_))
    ));
    assert!(matches!(
        JsWorker::try_new("syntax error here"),
        Err(AppError::ScriptLoad(_))
    ));
}

#[test]
fn extra_response_fields_are_ignored() {
    let code = r#"(function(){function h(req){return{status:200,headers:{},body:"b",extra:42};}return{h:h};})();"#;
    let worker = JsWorker::try_new(code).unwrap();
    let req = Req::builder().method("GET").url("/").build();
    let ret = worker.run("h", req).unwrap();
    assert_eq!(ret.status, 200);
    assert_eq!(ret.body.as_deref(), Some("b"));
}

#[test]
fn build_response_checks_status_and_headers() {
    assert!(matches!(
        build_response(99, vec![], None),
        Err(AppError::Marshal(_))
    ));
    assert!(matches!(
        build_response(600, vec![], None),
        Err(AppError::Marshal(_))
    ));
    let ok = build_response(
        200,
        vec![("a".to_string(), Some("b".to_string()))],
        Some("body".to_string()),
    )
    .unwrap();
    assert_eq!(ok.status, 200);
    assert_eq!(ok.headers, vec![("a".to_string(), "b".to_string())]);
    assert_eq!(ok.body.as_deref(), Some("body"));
    assert!(matches!(
        build_response(200, vec![("a".to_string(), None)], None),
        Err(AppError::Marshal(_))
    ));
}

#[test]
fn error_status_codes_match_taxonomy() {
    assert_eq!(AppError::HostNotFound("h".to_string()).status_code(), 404);
    assert_eq!(
        AppError::RoutePathNotFound("/p".to_string()).status_code(),
        404
    );
    assert_eq!(
        AppError::RouteMethodNotAllowed(dino_server::Method::Get).status_code(),
        405
    );
    assert_eq!(AppError::ScriptLoad("x".to_string()).status_code(), 500);
    assert_eq!(AppError::ScriptRuntime("x".to_string()).status_code(), 500);
    assert_eq!(AppError::Marshal("x".to_string()).status_code(), 500);
    assert_eq!(AppError::Config("x".to_string()).status_code(), 500);
    assert_eq!(
        AppError::HostNotFound("h".to_string()).message(),
        "HostNotFound: h"
    );
}
