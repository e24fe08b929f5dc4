use apollo_router::context::Context;
use apollo_router::coprocessor::HttpBody;
use apollo_router::execution::{ExecutionService, PlannedRequest, ServiceRegistry};
use apollo_router::graphql::{request_from_json, response_from_json, request_to_json, response_to_json, GraphqlError, GraphqlRequest, GraphqlResponse};
use apollo_router::json::Json;
use apollo_router::selection::Schema;

#[test]
fn execution_stage_is_always_ready() {
    let svc = ExecutionService::new(
        Schema { object_types: vec![], interfaces: vec![] },
        ServiceRegistry::new(vec![]),
    );
    assert!(svc.ready());
}

#[test]
fn the_response_keeps_the_request_context() {
    let svc = ExecutionService::new(
        Schema { object_types: vec![], interfaces: vec![] },
        ServiceRegistry::new(vec!["accounts".to_string()]),
    );
    let mut context = Context::new();
    context.entries.push(("mark".to_string(), Json::Num(7)));
    let planned = PlannedRequest { context };
    let body = Json::Obj(vec![("data".to_string(), Json::Null)]);
    let resp = svc.assemble_response(planned, body);
    assert_eq!(resp.status, 200);
    assert_eq!(resp.headers, vec![]);
    assert_eq!(
        resp.body,
        HttpBody::Json(Json::Obj(vec![("data".to_string(), Json::Null)]))
    );
    assert_eq!(resp.context.entries, vec![("mark".to_string(), Json::Num(7))]);
}

#[test]
fn the_registry_answers_by_name() {
    let reg = ServiceRegistry::new(vec!["accounts".to_string(), "reviews".to_string()]);
    assert!(reg.has(&"accounts".to_string()));
    assert!(reg.has(&"reviews".to_string()));
    assert!(!reg.has(&"products".to_string()));
}

#[test]
fn context_brackets_out_of_process_calls() {
    let mut c = Context::new();
    assert_eq!(c.active_requests, 0);
    c.enter_active_request();
    assert_eq!(c.active_requests, 1);
    c.enter_active_request();
    assert_eq!(c.active_requests, 2);
    c.leave_active_request();
    c.leave_active_request();
    assert_eq!(c.active_requests, 0);
}

#[test]
fn query_response_decodes_from_json() {
    let v = Json::Obj(vec![
        ("label".to_string(), Json::Str("defer-1".to_string())),
        ("data".to_string(), Json::Obj(vec![("a".to_string(), Json::Num(1))])),
        (
            "errors".to_string(),
            Json::Arr(vec![Json::Obj(vec![(
                "message".to_string(),
                Json::Str("partial".to_string()),
            )])]),
        ),
    ]);
    let r = response_from_json(&v).unwrap();
    assert_eq!(r.label, Some("defer-1".to_string()));
    assert_eq!(
        r.data,
        Some(Json::Obj(vec![("a".to_string(), Json::Num(1))]))
    );
    assert_eq!(r.errors.len(), 1);
    assert_eq!(r.errors[0].message, "partial".to_string());
    assert_eq!(r.extensions, vec![]);
}

#[test]
fn query_response_rejects_non_objects() {
    assert!(response_from_json(&Json::Num(42)).is_err());
    assert!(response_from_json(&Json::Null).is_err());
    assert!(response_from_json(&Json::Arr(vec![])).is_err());
}

#[test]
fn query_request_decodes_from_json() {
    let v = Json::Obj(vec![
        ("query".to_string(), Json::Str("{ a }".to_string())),
        ("operationName".to_string(), Json::Str("A".to_string())),
        (
            "variables".to_string(),
            Json::Obj(vec![("flag".to_string(), Json::Bool(true))]),
        ),
    ]);
    let r = request_from_json(&v).unwrap();
    assert_eq!(r.query, Some("{ a }".to_string()));
    assert_eq!(r.operation_name, Some("A".to_string()));
    assert_eq!(r.variables, vec![("flag".to_string(), Json::Bool(true))]);
}

#[test]
fn query_request_rejects_a_non_string_query() {
    let v = Json::Obj(vec![("query".to_string(), Json::Num(1))]);
    assert!(request_from_json(&v).is_err());
}

#[test]
fn query_request_encodes_present_fields_only() {
    let req = GraphqlRequest {
        query: Some("{ a }".to_string()),
        operation_name: None,
        variables: vec![],
        extensions: vec![],
    };
    assert_eq!(
        request_to_json(&req),
        Json::Obj(vec![("query".to_string(), Json::Str("{ a }".to_string()))])
    );
}

#[test]
fn query_response_encodes_errors_with_extensions() {
    let resp = GraphqlResponse {
        label: None,
        data: Some(Json::Null),
        errors: vec![GraphqlError {
            message: "oops".to_string(),
            extensions: vec![("code".to_string(), Json::Str("BAD".to_string()))],
        }],
        extensions: vec![],
    };
    assert_eq!(
        response_to_json(&resp),
        Json::Obj(vec![
            ("data".to_string(), Json::Null),
            (
                "errors".to_string(),
                Json::Arr(vec![Json::Obj(vec![
                    ("message".to_string(), Json::Str("oops".to_string())),
                    (
                        "extensions".to_string(),
                        Json::Obj(vec![("code".to_string(), Json::Str("BAD".to_string()))])
                    ),
                ])])
            ),
        ])
    );
}

#[test]
fn body_codec_round_trip() {
    let make = || GraphqlRequest {
        query: Some("query A { a }".to_string()),
        operation_name: Some("A".to_string()),
        variables: vec![("flag".to_string(), Json::Bool(true))],
        extensions: vec![],
    };
    let back = request_from_json(&request_to_json(&make())).unwrap();
    assert_eq!(back, make());
}

#[test]
fn response_codec_round_trip() {
    let make = || GraphqlResponse {
        label: Some("defer-1".to_string()),
        data: Some(Json::Obj(vec![("a".to_string(), Json::Num(1))])),
        errors: vec![GraphqlError {
            message: "partial".to_string(),
            extensions: vec![],
        }],
        extensions: vec![],
    };
    let back = response_from_json(&response_to_json(&make())).unwrap();
    assert_eq!(back, make());
}
