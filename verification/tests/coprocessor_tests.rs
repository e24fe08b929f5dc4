use apollo_router::context::Context;
use apollo_router::coprocessor::{
    interpret_router_request, interpret_router_response, interpret_subgraph_request,
    interpret_subgraph_response, prepare_router_request, prepare_router_response,
    prepare_subgraph_request, HttpBody, RouterRequest, RouterRequestConf, RouterResponse,
    RouterResponseConf, RouterStageOutcome, SubgraphRequest, SubgraphRequestConf,
    SubgraphResponse, SubgraphStageOutcome,
};
use apollo_router::external::{
    default_timeout, validate_coprocessor_output, Control, CoprocessorError, Externalizable,
    PipelineStep, EXTERNALIZABLE_VERSION,
};
use apollo_router::graphql::{GraphqlRequest, GraphqlResponse};
use apollo_router::headers::HeaderError;
use apollo_router::json::Json;

fn empty_envelope(stage: &str, control: Option<Control>) -> Externalizable {
    Externalizable {
        version: EXTERNALIZABLE_VERSION,
        stage: stage.to_string(),
        control,
        id: None,
        headers: None,
        body: None,
        context: None,
        sdl: None,
        uri: None,
        path: None,
        method: None,
        service_name: None,
        status_code: None,
    }
}

fn plain_router_request() -> RouterRequest {
    RouterRequest {
        headers: vec![("content-type".to_string(), "application/json".to_string())],
        uri: "/graphql".to_string(),
        method: "POST".to_string(),
        body: HttpBody::Bytes(b"{\"query\":\"{ a }\"}".to_vec()),
        context: Context::new(),
    }
}

fn plain_subgraph_request() -> SubgraphRequest {
    SubgraphRequest {
        headers: vec![],
        uri: "http://accounts.internal/graphql".to_string(),
        method: "POST".to_string(),
        body: GraphqlRequest {
            query: Some("{ a }".to_string()),
            operation_name: None,
            variables: vec![],
            extensions: vec![],
        },
        context: Context::new(),
    }
}

#[test]
fn version_mismatch_fails_the_stage() {
    let mut env = empty_envelope("RouterRequest", Some(Control::Continue));
    env.version = EXTERNALIZABLE_VERSION + 1;
    let r = validate_coprocessor_output(&env, PipelineStep::RouterRequest);
    assert_eq!(r, Err(CoprocessorError::WrongVersion(EXTERNALIZABLE_VERSION + 1)));

    let mut env = empty_envelope("RouterRequest", Some(Control::Continue));
    env.version = EXTERNALIZABLE_VERSION + 1;
    let r = interpret_router_request(env, plain_router_request());
    assert_eq!(r, Err(CoprocessorError::WrongVersion(EXTERNALIZABLE_VERSION + 1)));
}

#[test]
fn wrong_stage_fails_the_stage() {
    let env = empty_envelope("RouterResponse", Some(Control::Continue));
    let r = validate_coprocessor_output(&env, PipelineStep::RouterRequest);
    assert_eq!(r, Err(CoprocessorError::WrongStage("RouterResponse".to_string())));
}

#[test]
fn missing_control_fails_request_stages_only() {
    let env = empty_envelope("RouterRequest", None);
    let r = validate_coprocessor_output(&env, PipelineStep::RouterRequest);
    assert_eq!(r, Err(CoprocessorError::MissingControl));

    let env = empty_envelope("RouterResponse", None);
    let r = validate_coprocessor_output(&env, PipelineStep::RouterResponse);
    assert_eq!(r, Ok(()));
}

#[test]
fn control_resolves_to_http_status() {
    assert_eq!(Control::Continue.get_http_status(), Ok(200));
    assert_eq!(Control::Break(None).get_http_status(), Ok(200));
    assert_eq!(Control::Break(Some(418)).get_http_status(), Ok(418));
    assert_eq!(
        Control::Break(Some(99)).get_http_status(),
        Err(CoprocessorError::InvalidStatusCode(99))
    );
    assert_eq!(
        Control::Break(Some(600)).get_http_status(),
        Err(CoprocessorError::InvalidStatusCode(600))
    );
}

#[test]
fn continue_without_mutations_keeps_the_request() {
    let env = empty_envelope("RouterRequest", Some(Control::Continue));
    let r = interpret_router_request(env, plain_router_request()).unwrap();
    assert_eq!(r, RouterStageOutcome::Continue(plain_router_request()));
}

#[test]
fn continue_with_body_rewrite_hands_the_new_body_down() {
    let mut env = empty_envelope("RouterRequest", Some(Control::Continue));
    env.body = Some(Json::Obj(vec![(
        "query".to_string(),
        Json::Str("{ x }".to_string()),
    )]));
    let r = interpret_router_request(env, plain_router_request()).unwrap();
    match r {
        RouterStageOutcome::Continue(req) => {
            assert_eq!(
                req.body,
                HttpBody::Json(Json::Obj(vec![(
                    "query".to_string(),
                    Json::Str("{ x }".to_string())
                )]))
            );
            // untouched parts stay
            assert_eq!(req.method, "POST".to_string());
            assert_eq!(
                req.headers,
                vec![("content-type".to_string(), "application/json".to_string())]
            );
        }
        _ => panic!("expected to continue"),
    }
}

#[test]
fn break_synthesizes_a_response_with_the_carried_status() {
    let mut env = empty_envelope("RouterRequest", Some(Control::Break(Some(418))));
    env.body = Some(Json::Obj(vec![(
        "errors".to_string(),
        Json::Arr(vec![Json::Obj(vec![(
            "message".to_string(),
            Json::Str("no".to_string()),
        )])]),
    )]));
    let r = interpret_router_request(env, plain_router_request()).unwrap();
    match r {
        RouterStageOutcome::Break(resp) => {
            assert_eq!(resp.status, 418);
            match resp.body {
                HttpBody::Graphql(g) => {
                    assert_eq!(g.errors.len(), 1);
                    assert_eq!(g.errors[0].message, "no".to_string());
                }
                _ => panic!("expected a synthesized query response"),
            }
        }
        _ => panic!("expected a break"),
    }
}

#[test]
fn malformed_break_body_yields_the_deserialization_error() {
    let mut env = empty_envelope("RouterRequest", Some(Control::Break(Some(418))));
    env.body = Some(Json::Num(42));
    let r = interpret_router_request(env, plain_router_request()).unwrap();
    match r {
        RouterStageOutcome::Break(resp) => {
            assert_eq!(resp.status, 418);
            match resp.body {
                HttpBody::Graphql(g) => {
                    assert_eq!(g.errors.len(), 1);
                    assert_eq!(
                        g.errors[0].extensions,
                        vec![(
                            "code".to_string(),
                            Json::Str("EXERNAL_DESERIALIZATION_ERROR".to_string())
                        )]
                    );
                }
                _ => panic!("expected a synthesized query response"),
            }
        }
        _ => panic!("expected a break"),
    }
}

#[test]
fn break_with_invalid_status_fails() {
    let env = empty_envelope("RouterRequest", Some(Control::Break(Some(42))));
    let r = interpret_router_request(env, plain_router_request());
    assert_eq!(r, Err(CoprocessorError::InvalidStatusCode(42)));
}

#[test]
fn returned_headers_replace_the_request_headers() {
    let mut env = empty_envelope("RouterRequest", Some(Control::Continue));
    env.headers = Some(vec![("X-Extra".to_string(), vec!["1".to_string()])]);
    let r = interpret_router_request(env, plain_router_request()).unwrap();
    match r {
        RouterStageOutcome::Continue(req) => {
            assert_eq!(req.headers, vec![("x-extra".to_string(), "1".to_string())]);
        }
        _ => panic!("expected to continue"),
    }
}

#[test]
fn returned_context_supplants_the_request_context() {
    let mut env = empty_envelope("RouterRequest", Some(Control::Continue));
    let mut replacement = Context::new();
    replacement.entries.push(("mark".to_string(), Json::Bool(true)));
    env.context = Some(replacement);
    let r = interpret_router_request(env, plain_router_request()).unwrap();
    match r {
        RouterStageOutcome::Continue(req) => {
            assert_eq!(
                req.context.entries,
                vec![("mark".to_string(), Json::Bool(true))]
            );
        }
        _ => panic!("expected to continue"),
    }
}

#[test]
fn prepare_router_request_projects_the_configured_fields() {
    let conf = RouterRequestConf {
        headers: true,
        context: false,
        body: true,
        sdl: false,
        path: true,
        method: true,
    };
    let req = plain_router_request();
    let sdl = "type Query { a: String }".to_string();
    let env = prepare_router_request(
        &conf,
        &req,
        &sdl,
        Some("trace-1".to_string()),
        Some(Json::Obj(vec![(
            "query".to_string(),
            Json::Str("{ a }".to_string()),
        )])),
    );
    assert_eq!(env.version, EXTERNALIZABLE_VERSION);
    assert_eq!(env.stage, "RouterRequest".to_string());
    assert_eq!(env.control, Some(Control::Continue));
    assert_eq!(env.id, Some("trace-1".to_string()));
    assert_eq!(
        env.headers,
        Some(vec![(
            "content-type".to_string(),
            vec!["application/json".to_string()]
        )])
    );
    assert_eq!(
        env.body,
        Some(Json::Obj(vec![(
            "query".to_string(),
            Json::Str("{ a }".to_string())
        )]))
    );
    assert_eq!(env.context, None);
    assert_eq!(env.sdl, None);
    assert_eq!(env.path, Some("/graphql".to_string()));
    assert_eq!(env.method, Some("POST".to_string()));
    assert_eq!(env.uri, None);
    assert_eq!(env.service_name, None);
    assert_eq!(env.status_code, None);
}

#[test]
fn prepare_router_request_with_nothing_enabled_sends_no_field() {
    let conf = RouterRequestConf {
        headers: false,
        context: false,
        body: false,
        sdl: false,
        path: false,
        method: false,
    };
    let env = prepare_router_request(&conf, &plain_router_request(), &String::new(), None, None);
    assert_eq!(env.headers, None);
    assert_eq!(env.body, None);
    assert_eq!(env.context, None);
    assert_eq!(env.sdl, None);
    assert_eq!(env.path, None);
    assert_eq!(env.method, None);
}

#[test]
fn the_method_travels_only_when_its_flag_is_set() {
    let conf = SubgraphRequestConf {
        headers: false,
        context: false,
        body: false,
        uri: false,
        method: false,
        service_name: false,
    };
    let env = prepare_subgraph_request(&conf, &plain_subgraph_request(), &"accounts".to_string(), None);
    assert_eq!(env.method, None);

    let conf = SubgraphRequestConf { method: true, ..conf };
    let env = prepare_subgraph_request(&conf, &plain_subgraph_request(), &"accounts".to_string(), None);
    assert_eq!(env.method, Some("POST".to_string()));
}

#[test]
fn prepare_router_response_requires_a_json_body_when_asked_to_send_it() {
    let conf = RouterResponseConf {
        headers: false,
        context: false,
        body: true,
        sdl: false,
        status_code: false,
    };
    let resp = RouterResponse {
        status: 200,
        headers: vec![],
        body: HttpBody::Bytes(b"not json".to_vec()),
        context: Context::new(),
    };
    let r = prepare_router_response(&conf, &resp, &String::new(), None, None);
    assert_eq!(r, Err(CoprocessorError::BodyNotJson));
}

#[test]
fn router_response_status_is_overridden_by_a_returned_control() {
    let mut env = empty_envelope("RouterResponse", None);
    env.control = Some(Control::Break(Some(503)));
    let resp = RouterResponse {
        status: 200,
        headers: vec![],
        body: HttpBody::Bytes(vec![]),
        context: Context::new(),
    };
    let r = interpret_router_response(env, resp).unwrap();
    assert_eq!(r.status, 503);
}

#[test]
fn subgraph_continue_decodes_the_returned_body() {
    let mut env = empty_envelope("SubgraphRequest", Some(Control::Continue));
    env.body = Some(Json::Obj(vec![(
        "query".to_string(),
        Json::Str("{ y }".to_string()),
    )]));
    let r = interpret_subgraph_request(env, plain_subgraph_request()).unwrap();
    match r {
        SubgraphStageOutcome::Continue(req) => {
            assert_eq!(req.body.query, Some("{ y }".to_string()));
        }
        _ => panic!("expected to continue"),
    }
}

#[test]
fn subgraph_continue_rejects_a_body_that_is_no_request() {
    let mut env = empty_envelope("SubgraphRequest", Some(Control::Continue));
    env.body = Some(Json::Num(42));
    let r = interpret_subgraph_request(env, plain_subgraph_request());
    assert_eq!(r, Err(CoprocessorError::BodyNotGraphqlRequest));
}

#[test]
fn subgraph_uri_is_replaced_when_it_parses() {
    let mut env = empty_envelope("SubgraphRequest", Some(Control::Continue));
    env.uri = Some("http://reviews.internal/graphql".to_string());
    let r = interpret_subgraph_request(env, plain_subgraph_request()).unwrap();
    match r {
        SubgraphStageOutcome::Continue(req) => {
            assert_eq!(req.uri, "http://reviews.internal/graphql".to_string());
        }
        _ => panic!("expected to continue"),
    }
}

#[test]
fn subgraph_uri_that_does_not_parse_fails() {
    let mut env = empty_envelope("SubgraphRequest", Some(Control::Continue));
    env.uri = Some(String::new());
    let r = interpret_subgraph_request(env, plain_subgraph_request());
    assert_eq!(r, Err(CoprocessorError::InvalidSubgraphUri(String::new())));
}

#[test]
fn subgraph_response_body_must_decode_as_a_response() {
    let mut env = empty_envelope("SubgraphResponse", None);
    env.body = Some(Json::Num(7));
    let resp = SubgraphResponse {
        status: 200,
        headers: vec![],
        body: GraphqlResponse { label: None, data: None, errors: vec![], extensions: vec![] },
        context: Context::new(),
    };
    let r = interpret_subgraph_response(env, resp);
    assert_eq!(r, Err(CoprocessorError::BodyNotGraphqlResponse));
}

#[test]
fn subgraph_response_mutations_apply() {
    let mut env = empty_envelope("SubgraphResponse", None);
    env.body = Some(Json::Obj(vec![(
        "data".to_string(),
        Json::Obj(vec![("a".to_string(), Json::Num(1))]),
    )]));
    env.control = Some(Control::Break(Some(299)));
    let resp = SubgraphResponse {
        status: 200,
        headers: vec![],
        body: GraphqlResponse { label: None, data: None, errors: vec![], extensions: vec![] },
        context: Context::new(),
    };
    let r = interpret_subgraph_response(env, resp).unwrap();
    assert_eq!(r.status, 299);
    assert_eq!(
        r.body.data,
        Some(Json::Obj(vec![("a".to_string(), Json::Num(1))]))
    );
}

#[test]
fn prepare_subgraph_request_serializes_the_structured_body() {
    let conf = SubgraphRequestConf {
        headers: false,
        context: false,
        body: true,
        uri: true,
        method: true,
        service_name: true,
    };
    let req = plain_subgraph_request();
    let env = prepare_subgraph_request(&conf, &req, &"accounts".to_string(), None);
    assert_eq!(env.stage, "SubgraphRequest".to_string());
    assert_eq!(env.control, Some(Control::Continue));
    assert_eq!(
        env.body,
        Some(Json::Obj(vec![(
            "query".to_string(),
            Json::Str("{ a }".to_string())
        )]))
    );
    assert_eq!(env.uri, Some("http://accounts.internal/graphql".to_string()));
    assert_eq!(env.method, Some("POST".to_string()));
    assert_eq!(env.service_name, Some("accounts".to_string()));
    assert_eq!(env.sdl, None);
}

#[test]
fn a_bad_returned_header_fails_the_stage() {
    let mut env = empty_envelope("RouterRequest", Some(Control::Continue));
    env.headers = Some(vec![("not a header".to_string(), vec!["x".to_string()])]);
    let r = interpret_router_request(env, plain_router_request());
    assert_eq!(
        r,
        Err(CoprocessorError::Header(HeaderError::InvalidName(
            "not a header".to_string()
        )))
    );
}

#[test]
fn stage_names_are_the_four_pipeline_points() {
    assert_eq!(PipelineStep::RouterRequest.stage_name(), "RouterRequest".to_string());
    assert_eq!(PipelineStep::RouterResponse.stage_name(), "RouterResponse".to_string());
    assert_eq!(PipelineStep::SubgraphRequest.stage_name(), "SubgraphRequest".to_string());
    assert_eq!(PipelineStep::SubgraphResponse.stage_name(), "SubgraphResponse".to_string());
}

#[test]
fn the_default_timeout_is_one_second() {
    assert_eq!(default_timeout(), 1000);
}
