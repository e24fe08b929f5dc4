//! The coprocessor stages: at each of the four pipeline points the in-flight
//! message is projected into an envelope, sent out, and the reply either
//! mutates the message, short-circuits with a synthesized response, or fails
//! the stage. The functions here prepare the outbound envelope and interpret
//! the reply; performing the HTTP exchange between the two is the caller's
//! part, bracketed by the context's `enter_active_request` and
//! `leave_active_request`.
use vstd::prelude::*;
use crate::context::{Context, ContextV};
use crate::external::{
    validate_coprocessor_output, spec_validate, Control, CoprocessorError, CoprocessorErrorV,
    Externalizable, PipelineStep, EXTERNALIZABLE_VERSION,
};
use crate::graphql::{
    request_from_json, request_to_json, response_from_json, response_to_json, spec_request_from_json,
    spec_request_to_json, spec_response_from_json, spec_response_to_json, GraphqlRequest,
    GraphqlRequestV, GraphqlResponse, GraphqlResponseV,
};
use crate::headers::{
    externalize_header_map, internalize_header_map, multimap_view, pairs_view, spec_externalize,
    spec_internalize,
};
use crate::json::{Json, JsonV};

verus! {

// ---------------------------------------------------------------------------
// The in-flight messages, as the stages see them
// ---------------------------------------------------------------------------

/// A router-level body: opaque buffered bytes, a JSON value the coprocessor
/// substituted and the caller still has to serialize, or a synthesized query
/// response.
#[derive(Debug, PartialEq, Eq)]
pub enum HttpBody {
    Bytes(Vec<u8>),
    Json(Json),
    Graphql(GraphqlResponse),
}

/// The mathematical shape of an [`HttpBody`].
#[verifier::ext_equal]
pub enum HttpBodyV {
    Bytes(Seq<u8>),
    Json(JsonV),
    Graphql(GraphqlResponseV),
}

impl View for HttpBody {
    type V = HttpBodyV;

    open spec fn view(&self) -> HttpBodyV {
        match self {
            HttpBody::Bytes(b) => HttpBodyV::Bytes(b@),
            HttpBody::Json(j) => HttpBodyV::Json(j@),
            HttpBody::Graphql(g) => HttpBodyV::Graphql(g@),
        }
    }
}

/// A router-level request: the client's bytes, buffered contiguous, with
/// the request line parts the stages read.
#[derive(Debug, PartialEq, Eq)]
pub struct RouterRequest {
    pub headers: Vec<(String, String)>,
    pub uri: String,
    pub method: String,
    pub body: HttpBody,
    pub context: Context,
}

/// The mathematical shape of a [`RouterRequest`].
#[verifier::ext_equal]
pub struct RouterRequestV {
    pub headers: Seq<(Seq<char>, Seq<char>)>,
    pub uri: Seq<char>,
    pub method: Seq<char>,
    pub body: HttpBodyV,
    pub context: ContextV,
}

impl View for RouterRequest {
    type V = RouterRequestV;

    open spec fn view(&self) -> RouterRequestV {
        RouterRequestV {
            headers: pairs_view(self.headers@),
            uri: self.uri@,
            method: self.method@,
            body: self.body@,
            context: self.context@,
        }
    }
}

/// A router-level response.
#[derive(Debug, PartialEq, Eq)]
pub struct RouterResponse {
    pub status: u16,
    pub headers: Vec<(String, String)>,
    pub body: HttpBody,
    pub context: Context,
}

/// The mathematical shape of a [`RouterResponse`].
#[verifier::ext_equal]
pub struct RouterResponseV {
    pub status: u16,
    pub headers: Seq<(Seq<char>, Seq<char>)>,
    pub body: HttpBodyV,
    pub context: ContextV,
}

impl View for RouterResponse {
    type V = RouterResponseV;

    open spec fn view(&self) -> RouterResponseV {
        RouterResponseV {
            status: self.status,
            headers: pairs_view(self.headers@),
            body: self.body@,
            context: self.context@,
        }
    }
}

/// A subgraph-level request: its body is a structured query request.
#[derive(Debug, PartialEq, Eq)]
pub struct SubgraphRequest {
    pub headers: Vec<(String, String)>,
    pub uri: String,
    pub method: String,
    pub body: GraphqlRequest,
    pub context: Context,
}

/// The mathematical shape of a [`SubgraphRequest`].
#[verifier::ext_equal]
pub struct SubgraphRequestV {
    pub headers: Seq<(Seq<char>, Seq<char>)>,
    pub uri: Seq<char>,
    pub method: Seq<char>,
    pub body: GraphqlRequestV,
    pub context: ContextV,
}

impl View for SubgraphRequest {
    type V = SubgraphRequestV;

    open spec fn view(&self) -> SubgraphRequestV {
        SubgraphRequestV {
            headers: pairs_view(self.headers@),
            uri: self.uri@,
            method: self.method@,
            body: self.body@,
            context: self.context@,
        }
    }
}

/// A subgraph-level response: its body is a structured query response.
#[derive(Debug, PartialEq, Eq)]
pub struct SubgraphResponse {
    pub status: u16,
    pub headers: Vec<(String, String)>,
    pub body: GraphqlResponse,
    pub context: Context,
}

/// The mathematical shape of a [`SubgraphResponse`].
#[verifier::ext_equal]
pub struct SubgraphResponseV {
    pub status: u16,
    pub headers: Seq<(Seq<char>, Seq<char>)>,
    pub body: GraphqlResponseV,
    pub context: ContextV,
}

impl View for SubgraphResponse {
    type V = SubgraphResponseV;

    open spec fn view(&self) -> SubgraphResponseV {
        SubgraphResponseV {
            status: self.status,
            headers: pairs_view(self.headers@),
            body: self.body@,
            context: self.context@,
        }
    }
}

/// What a request stage decides: go on with the (possibly mutated) request,
/// or short-circuit with a synthesized response.
#[derive(Debug, PartialEq, Eq)]
pub enum RouterStageOutcome {
    Break(RouterResponse),
    Continue(RouterRequest),
}

/// The mathematical shape of a [`RouterStageOutcome`].
#[verifier::ext_equal]
pub enum RouterStageOutcomeV {
    Break(RouterResponseV),
    Continue(RouterRequestV),
}

impl View for RouterStageOutcome {
    type V = RouterStageOutcomeV;

    open spec fn view(&self) -> RouterStageOutcomeV {
        match self {
            RouterStageOutcome::Break(r) => RouterStageOutcomeV::Break(r@),
            RouterStageOutcome::Continue(r) => RouterStageOutcomeV::Continue(r@),
        }
    }
}

/// What a subgraph request stage decides.
#[derive(Debug, PartialEq, Eq)]
pub enum SubgraphStageOutcome {
    Break(SubgraphResponse),
    Continue(SubgraphRequest),
}

/// The mathematical shape of a [`SubgraphStageOutcome`].
#[verifier::ext_equal]
pub enum SubgraphStageOutcomeV {
    Break(SubgraphResponseV),
    Continue(SubgraphRequestV),
}

impl View for SubgraphStageOutcome {
    type V = SubgraphStageOutcomeV;

    open spec fn view(&self) -> SubgraphStageOutcomeV {
        match self {
            SubgraphStageOutcome::Break(r) => SubgraphStageOutcomeV::Break(r@),
            SubgraphStageOutcome::Continue(r) => SubgraphStageOutcomeV::Continue(r@),
        }
    }
}

// ---------------------------------------------------------------------------
// The send-filter configuration
// ---------------------------------------------------------------------------

/// What a router request stage sends to the coprocessor.
#[derive(Debug, Clone, Copy, PartialEq, Eq, Structural)]
pub struct RouterRequestConf {
    pub headers: bool,
    pub context: bool,
    pub body: bool,
    pub sdl: bool,
    pub path: bool,
    pub method: bool,
}

/// What a router response stage sends to the coprocessor.
#[derive(Debug, Clone, Copy, PartialEq, Eq, Structural)]
pub struct RouterResponseConf {
    pub headers: bool,
    pub context: bool,
    pub body: bool,
    pub sdl: bool,
    pub status_code: bool,
}

/// What a subgraph request stage sends to the coprocessor.
#[derive(Debug, Clone, Copy, PartialEq, Eq, Structural)]
pub struct SubgraphRequestConf {
    pub headers: bool,
    pub context: bool,
    pub body: bool,
    pub uri: bool,
    pub method: bool,
    pub service_name: bool,
}

/// What a subgraph response stage sends to the coprocessor.
#[derive(Debug, Clone, Copy, PartialEq, Eq, Structural)]
pub struct SubgraphResponseConf {
    pub headers: bool,
    pub context: bool,
    pub body: bool,
    pub service_name: bool,
    pub status_code: bool,
}

impl RouterRequestConf {
    /// The default sends nothing.
    pub open spec fn spec_default() -> RouterRequestConf {
        RouterRequestConf {
            headers: false,
            context: false,
            body: false,
            sdl: false,
            path: false,
            method: false,
        }
    }

    /// True exactly when some field is enabled: only then is a request-side
    /// checkpoint layer built at all.
    pub fn is_active(&self) -> (r: bool)
        ensures
            r == (*self != RouterRequestConf::spec_default()),
    {
        self.headers || self.context || self.body || self.sdl || self.path || self.method
    }
}

impl RouterResponseConf {
    /// The default sends nothing.
    pub open spec fn spec_default() -> RouterResponseConf {
        RouterResponseConf {
            headers: false,
            context: false,
            body: false,
            sdl: false,
            status_code: false,
        }
    }

    /// True exactly when some field is enabled: only then is a
    /// response-side layer built at all.
    pub fn is_active(&self) -> (r: bool)
        ensures
            r == (*self != RouterResponseConf::spec_default()),
    {
        self.headers || self.context || self.body || self.sdl || self.status_code
    }
}

impl SubgraphRequestConf {
    /// The default sends nothing.
    pub open spec fn spec_default() -> SubgraphRequestConf {
        SubgraphRequestConf {
            headers: false,
            context: false,
            body: false,
            uri: false,
            method: false,
            service_name: false,
        }
    }

    /// True exactly when some field is enabled.
    pub fn is_active(&self) -> (r: bool)
        ensures
            r == (*self != SubgraphRequestConf::spec_default()),
    {
        self.headers || self.context || self.body || self.uri || self.method || self.service_name
    }
}

impl SubgraphResponseConf {
    /// The default sends nothing.
    pub open spec fn spec_default() -> SubgraphResponseConf {
        SubgraphResponseConf {
            headers: false,
            context: false,
            body: false,
            service_name: false,
            status_code: false,
        }
    }

    /// True exactly when some field is enabled.
    pub fn is_active(&self) -> (r: bool)
        ensures
            r == (*self != SubgraphResponseConf::spec_default()),
    {
        self.headers || self.context || self.body || self.service_name || self.status_code
    }
}

/// The router pipeline point's request and response send-filters.
#[derive(Debug, Clone, Copy, PartialEq, Eq, Structural)]
pub struct RouterStageConf {
    pub request: RouterRequestConf,
    pub response: RouterResponseConf,
}

/// The subgraph pipeline point's request and response send-filters.
#[derive(Debug, Clone, Copy, PartialEq, Eq, Structural)]
pub struct SubgraphStageConf {
    pub request: SubgraphRequestConf,
    pub response: SubgraphResponseConf,
}

/// The subgraph stages: one filter applies to all subgraphs.
#[derive(Debug, Clone, Copy, PartialEq, Eq, Structural)]
pub struct SubgraphStagesConf {
    pub all: SubgraphStageConf,
}

/// The whole coprocessor configuration.
#[derive(Debug, PartialEq, Eq)]
pub struct Conf {
    /// Where to send the envelopes.
    pub url: String,
    /// The per-call timeout, in milliseconds.
    pub timeout_ms: u64,
    pub router: RouterStageConf,
    pub subgraph: SubgraphStagesConf,
}

// ---------------------------------------------------------------------------
// Preparing the outbound envelopes
// ---------------------------------------------------------------------------

/// Projects a router-level request into the envelope to send. `parsed_body`
/// is the request body read as JSON, where it is JSON: a body that is not
/// JSON is tolerated on the request side and travels as null. `trace_id`
/// is the current trace's id, where one exists.
pub fn prepare_router_request(
    conf: &RouterRequestConf,
    request: &RouterRequest,
    sdl: &String,
    trace_id: Option<String>,
    parsed_body: Option<Json>,
) -> (r: Externalizable)
    ensures
        r.version == EXTERNALIZABLE_VERSION,
        r.stage@ == PipelineStep::RouterRequest.spec_name(),
        r.control == Some(Control::Continue),
        r.id == trace_id,
        conf.headers ==> (r.headers matches Some(h) && multimap_view(h@) == spec_externalize(
            request.headers@,
        )),
        !conf.headers ==> r.headers is None,
        r.body == (if conf.body {
            parsed_body
        } else {
            None::<Json>
        }),
        conf.context ==> (r.context matches Some(c) && c@ == request.context@),
        !conf.context ==> r.context is None,
        conf.sdl ==> (r.sdl matches Some(s) && s@ == sdl@),
        !conf.sdl ==> r.sdl is None,
        conf.path ==> (r.path matches Some(p) && p@ == request.uri@),
        !conf.path ==> r.path is None,
        conf.method ==> (r.method matches Some(m) && m@ == request.method@),
        !conf.method ==> r.method is None,
        r.uri is None,
        r.service_name is None,
        r.status_code is None,
{
    Externalizable {
        version: EXTERNALIZABLE_VERSION,
        stage: PipelineStep::RouterRequest.stage_name(),
        control: Some(Control::default_continue()),
        id: trace_id,
        headers: if conf.headers {
            Some(externalize_header_map(&request.headers))
        } else {
            None
        },
        body: if conf.body {
            parsed_body
        } else {
            None
        },
        context: if conf.context {
            Some(request.context.deep_clone())
        } else {
            None
        },
        sdl: if conf.sdl {
            Some(sdl.clone())
        } else {
            None
        },
        uri: None,
        path: if conf.path {
            Some(request.uri.clone())
        } else {
            None
        },
        method: if conf.method {
            Some(request.method.clone())
        } else {
            None
        },
        service_name: None,
        status_code: None,
    }
}

/// Projects a router-level response into the envelope to send. Unlike the
/// request side, a response body that is not JSON is a hard error when the
/// configuration asks to send the body: `parsed_body` carries the parse's
/// outcome.
pub fn prepare_router_response(
    conf: &RouterResponseConf,
    response: &RouterResponse,
    sdl: &String,
    trace_id: Option<String>,
    parsed_body: Option<Json>,
) -> (r: Result<Externalizable, CoprocessorError>)
    ensures
        conf.body && parsed_body is None ==> (r matches Err(e) && e@
            == CoprocessorErrorV::BodyNotJson),
        !(conf.body && parsed_body is None) ==> (r matches Ok(env) && {
            &&& env.version == EXTERNALIZABLE_VERSION
            &&& env.stage@ == PipelineStep::RouterResponse.spec_name()
            &&& env.control is None
            &&& env.id == trace_id
            &&& (conf.headers ==> (env.headers matches Some(h) && multimap_view(h@)
                == spec_externalize(response.headers@)))
            &&& (!conf.headers ==> env.headers is None)
            &&& env.body == (if conf.body {
                parsed_body
            } else {
                None::<Json>
            })
            &&& (conf.context ==> (env.context matches Some(c) && c@ == response.context@))
            &&& (!conf.context ==> env.context is None)
            &&& (conf.sdl ==> (env.sdl matches Some(s) && s@ == sdl@))
            &&& (!conf.sdl ==> env.sdl is None)
            &&& env.status_code == (if conf.status_code {
                Some(response.status)
            } else {
                None::<u16>
            })
            &&& env.uri is None
            &&& env.path is None
            &&& env.method is None
            &&& env.service_name is None
        }),
{
    if conf.body && parsed_body.is_none() {
        return Err(CoprocessorError::BodyNotJson);
    }
    Ok(
        Externalizable {
            version: EXTERNALIZABLE_VERSION,
            stage: PipelineStep::RouterResponse.stage_name(),
            control: None,
            id: trace_id,
            headers: if conf.headers {
                Some(externalize_header_map(&response.headers))
            } else {
                None
            },
            body: if conf.body {
                parsed_body
            } else {
                None
            },
            context: if conf.context {
                Some(response.context.deep_clone())
            } else {
                None
            },
            sdl: if conf.sdl {
                Some(sdl.clone())
            } else {
                None
            },
            uri: None,
            path: None,
            method: None,
            service_name: None,
            status_code: if conf.status_code {
                Some(response.status)
            } else {
                None
            },
        },
    )
}

/// Projects a subgraph-level request into the envelope to send. The body is
/// structured and always re-serializable, so sending it cannot fail.
pub fn prepare_subgraph_request(
    conf: &SubgraphRequestConf,
    request: &SubgraphRequest,
    service_name: &String,
    trace_id: Option<String>,
) -> (r: Externalizable)
    ensures
        r.version == EXTERNALIZABLE_VERSION,
        r.stage@ == PipelineStep::SubgraphRequest.spec_name(),
        r.control == Some(Control::Continue),
        r.id == trace_id,
        conf.headers ==> (r.headers matches Some(h) && multimap_view(h@) == spec_externalize(
            request.headers@,
        )),
        !conf.headers ==> r.headers is None,
        conf.body ==> (r.body matches Some(b) && b@ == spec_request_to_json(request.body@)),
        !conf.body ==> r.body is None,
        conf.context ==> (r.context matches Some(c) && c@ == request.context@),
        !conf.context ==> r.context is None,
        conf.uri ==> (r.uri matches Some(u) && u@ == request.uri@),
        !conf.uri ==> r.uri is None,
        conf.service_name ==> (r.service_name matches Some(s) && s@ == service_name@),
        !conf.service_name ==> r.service_name is None,
        conf.method ==> (r.method matches Some(m) && m@ == request.method@),
        !conf.method ==> r.method is None,
        r.sdl is None,
        r.path is None,
        r.status_code is None,
{
    Externalizable {
        version: EXTERNALIZABLE_VERSION,
        stage: PipelineStep::SubgraphRequest.stage_name(),
        control: Some(Control::default_continue()),
        id: trace_id,
        headers: if conf.headers {
            Some(externalize_header_map(&request.headers))
        } else {
            None
        },
        body: if conf.body {
            Some(request_to_json(&request.body))
        } else {
            None
        },
        context: if conf.context {
            Some(request.context.deep_clone())
        } else {
            None
        },
        sdl: None,
        uri: if conf.uri {
            Some(request.uri.clone())
        } else {
            None
        },
        path: None,
        method: if conf.method {
            Some(request.method.clone())
        } else {
            None
        },
        service_name: if conf.service_name {
            Some(service_name.clone())
        } else {
            None
        },
        status_code: None,
    }
}

/// Projects a subgraph-level response into the envelope to send.
pub fn prepare_subgraph_response(
    conf: &SubgraphResponseConf,
    response: &SubgraphResponse,
    service_name: &String,
    trace_id: Option<String>,
) -> (r: Externalizable)
    ensures
        r.version == EXTERNALIZABLE_VERSION,
        r.stage@ == PipelineStep::SubgraphResponse.spec_name(),
        r.control is None,
        r.id == trace_id,
        conf.headers ==> (r.headers matches Some(h) && multimap_view(h@) == spec_externalize(
            response.headers@,
        )),
        !conf.headers ==> r.headers is None,
        conf.body ==> (r.body matches Some(b) && b@ == spec_response_to_json(response.body@)),
        !conf.body ==> r.body is None,
        conf.context ==> (r.context matches Some(c) && c@ == response.context@),
        !conf.context ==> r.context is None,
        conf.service_name ==> (r.service_name matches Some(s) && s@ == service_name@),
        !conf.service_name ==> r.service_name is None,
        r.status_code == (if conf.status_code {
            Some(response.status)
        } else {
            None::<u16>
        }),
        r.sdl is None,
        r.uri is None,
        r.path is None,
        r.method is None,
{
    Externalizable {
        version: EXTERNALIZABLE_VERSION,
        stage: PipelineStep::SubgraphResponse.stage_name(),
        control: None,
        id: trace_id,
        headers: if conf.headers {
            Some(externalize_header_map(&response.headers))
        } else {
            None
        },
        body: if conf.body {
            Some(response_to_json(&response.body))
        } else {
            None
        },
        context: if conf.context {
            Some(response.context.deep_clone())
        } else {
            None
        },
        sdl: None,
        uri: None,
        path: None,
        method: None,
        service_name: if conf.service_name {
            Some(service_name.clone())
        } else {
            None
        },
        status_code: if conf.status_code {
            Some(response.status)
        } else {
            None
        },
    }
}


// ---------------------------------------------------------------------------
// Interpreting the replies
// ---------------------------------------------------------------------------

/// Whether a string parses as a URI.
pub uninterp spec fn uri_ok(s: Seq<char>) -> bool;

/// Relies on `http::Uri`'s string parse: whether a string is a URI depends
/// on the characters alone.
#[verifier::external_body]
fn uri_is_valid(s: &String) -> (r: bool)
    ensures
        r == uri_ok(s@),
{
    s.as_str().parse::<http::Uri>().is_ok()
}

/// The response substituted when a `Break` body does not decode as a query
/// response: one error with a fixed message and the extension code
/// `EXERNAL_DESERIALIZATION_ERROR`.
pub open spec fn spec_deser_error_response() -> GraphqlResponseV {
    GraphqlResponseV {
        label: None,
        data: None,
        errors: seq![
            crate::graphql::GraphqlErrorV {
                message: "couldn't deserialize coprocessor output body"@,
                extensions: seq![
                    ("code"@, JsonV::Str("EXERNAL_DESERIALIZATION_ERROR"@)),
                ],
            },
        ],
        extensions: Seq::empty(),
    }
}

fn deser_error_response() -> (r: GraphqlResponse)
    ensures
        r@ == spec_deser_error_response(),
{
    let mut extensions: Vec<(String, Json)> = Vec::new();
    extensions.push(
        ("code".to_owned(), Json::Str("EXERNAL_DESERIALIZATION_ERROR".to_owned())),
    );
    let mut errors: Vec<crate::graphql::GraphqlError> = Vec::new();
    errors.push(
        crate::graphql::GraphqlError {
            message: "couldn't deserialize coprocessor output body".to_owned(),
            extensions,
        },
    );
    let r = GraphqlResponse { label: None, data: None, errors, extensions: Vec::new() };
    proof {
        crate::json::lemma_json_members_view(r.errors@[0].extensions@);
        assert(crate::json::json_members_view(r.errors@[0].extensions@)
            =~= spec_deser_error_response().errors[0].extensions);
        assert(crate::graphql::errors_view(r.errors@) =~= spec_deser_error_response().errors);
        assert(crate::json::json_members_view(r.extensions@)
            =~= Seq::<(Seq<char>, JsonV)>::empty());
        assert(r@ =~~= spec_deser_error_response());
    }
    r
}

/// The query response a `Break` body decodes to: the decoded response when
/// it is well shaped, and the substitute carrying
/// `EXERNAL_DESERIALIZATION_ERROR` otherwise; an absent body counts as null,
/// which is not well shaped.
pub open spec fn spec_break_body(body: Option<Json>) -> GraphqlResponseV {
    let v = match body {
        Some(b) => crate::json::json_view(b),
        None => JsonV::Null,
    };
    match spec_response_from_json(v) {
        Ok(g) => g,
        Err(_) => spec_deser_error_response(),
    }
}

/// What interpreting a router-request reply yields, mathematically.
pub open spec fn spec_interpret_router_request(output: Externalizable, request: RouterRequest)
    -> Result<RouterStageOutcomeV, CoprocessorErrorV> {
    match spec_validate(output, PipelineStep::RouterRequest) {
        Some(e) => Err(e),
        None => match output.control->0 {
            Control::Break(code) => match (Control::Break(code)).spec_http_status() {
                Err(c) => Err(CoprocessorErrorV::InvalidStatusCode(c)),
                Ok(status) => {
                    let gql = spec_break_body(output.body);
                    match (match output.headers {
                        Some(m) => spec_internalize(multimap_view(m@)),
                        None => Ok(Seq::empty()),
                    }) {
                        Err(he) => Err(CoprocessorErrorV::Header(he)),
                        Ok(hs) => Ok(
                            RouterStageOutcomeV::Break(
                                RouterResponseV {
                                    status,
                                    headers: hs,
                                    body: HttpBodyV::Graphql(gql),
                                    context: match output.context {
                                        Some(c) => c@,
                                        None => request.context@,
                                    },
                                },
                            ),
                        ),
                    }
                },
            },
            Control::Continue => {
                match (match output.headers {
                    Some(m) => spec_internalize(multimap_view(m@)),
                    None => Ok(pairs_view(request.headers@)),
                }) {
                    Err(he) => Err(CoprocessorErrorV::Header(he)),
                    Ok(hs) => Ok(
                        RouterStageOutcomeV::Continue(
                            RouterRequestV {
                                headers: hs,
                                uri: request.uri@,
                                method: request.method@,
                                body: match output.body {
                                    Some(v) => HttpBodyV::Json(crate::json::json_view(v)),
                                    None => request.body@,
                                },
                                context: match output.context {
                                    Some(c) => c@,
                                    None => request.context@,
                                },
                            },
                        ),
                    ),
                }
            },
        },
    }
}

/// Interprets the coprocessor's reply at the router request stage: after
/// validation, a `Break` short-circuits with a synthesized response carrying
/// the control's status, and a `Continue` applies the returned mutations to
/// the request, keeping every part the reply does not carry.
pub fn interpret_router_request(output: Externalizable, request: RouterRequest) -> (r: Result<
    RouterStageOutcome,
    CoprocessorError,
>)
    ensures
        match r {
            Ok(outcome) => spec_interpret_router_request(output, request) == Ok::<
                RouterStageOutcomeV,
                CoprocessorErrorV,
            >(outcome@),
            Err(e) => spec_interpret_router_request(output, request) == Err::<
                RouterStageOutcomeV,
                CoprocessorErrorV,
            >(e@),
        },
{
    if let Err(e) = validate_coprocessor_output(&output, PipelineStep::RouterRequest) {
        return Err(e);
    }
    let control = match &output.control {
        Some(c) => *c,
        None => {
            return Err(CoprocessorError::MissingControl);
        },
    };
    match control {
        Control::Break(_) => {
            let status = match control.get_http_status() {
                Ok(s) => s,
                Err(e) => {
                    return Err(e);
                },
            };
            let gql = match &output.body {
                Some(b) => match response_from_json(b) {
                    Ok(g) => g,
                    Err(_) => deser_error_response(),
                },
                None => deser_error_response(),
            };
            proof {
                if output.body is None {
                    assert(spec_response_from_json(JsonV::Null) is Err);
                }
            }
            let headers = match &output.headers {
                Some(m) => match internalize_header_map(m) {
                    Ok(hs) => hs,
                    Err(he) => {
                        return Err(CoprocessorError::Header(he));
                    },
                },
                None => Vec::new(),
            };
            proof {
                assert(pairs_view(Seq::<(String, String)>::empty()) =~= Seq::<
                    (Seq<char>, Seq<char>),
                >::empty());
            }
            let context = match output.context {
                Some(c) => c,
                None => request.context,
            };
            Ok(
                RouterStageOutcome::Break(
                    RouterResponse { status, headers, body: HttpBody::Graphql(gql), context },
                ),
            )
        },
        Control::Continue => {
            let headers = match &output.headers {
                Some(m) => match internalize_header_map(m) {
                    Ok(hs) => hs,
                    Err(he) => {
                        return Err(CoprocessorError::Header(he));
                    },
                },
                None => request.headers,
            };
            let body = match output.body {
                Some(v) => HttpBody::Json(v),
                None => request.body,
            };
            let context = match output.context {
                Some(c) => c,
                None => request.context,
            };
            Ok(
                RouterStageOutcome::Continue(
                    RouterRequest {
                        headers,
                        uri: request.uri,
                        method: request.method,
                        body,
                        context,
                    },
                ),
            )
        },
    }
}

/// What interpreting a router-response reply yields, mathematically.
pub open spec fn spec_interpret_router_response(output: Externalizable, response: RouterResponse)
    -> Result<RouterResponseV, CoprocessorErrorV> {
    match spec_validate(output, PipelineStep::RouterResponse) {
        Some(e) => Err(e),
        None => {
            let status_r: Result<u16, u16> = match output.control {
                Some(c) => c.spec_http_status(),
                None => Ok(response.status),
            };
            match status_r {
                Err(c) => Err(CoprocessorErrorV::InvalidStatusCode(c)),
                Ok(status) => match (match output.headers {
                    Some(m) => spec_internalize(multimap_view(m@)),
                    None => Ok(pairs_view(response.headers@)),
                }) {
                    Err(he) => Err(CoprocessorErrorV::Header(he)),
                    Ok(hs) => Ok(
                        RouterResponseV {
                            status,
                            headers: hs,
                            body: match output.body {
                                Some(v) => HttpBodyV::Json(crate::json::json_view(v)),
                                None => response.body@,
                            },
                            context: match output.context {
                                Some(c) => c@,
                                None => response.context@,
                            },
                        },
                    ),
                },
            }
        },
    }
}

/// Interprets the coprocessor's reply at the router response stage: after
/// validation, the returned mutations are applied to the response, and a
/// returned `control` overrides its status.
pub fn interpret_router_response(output: Externalizable, response: RouterResponse) -> (r: Result<
    RouterResponse,
    CoprocessorError,
>)
    ensures
        match r {
            Ok(resp) => spec_interpret_router_response(output, response) == Ok::<
                RouterResponseV,
                CoprocessorErrorV,
            >(resp@),
            Err(e) => spec_interpret_router_response(output, response) == Err::<
                RouterResponseV,
                CoprocessorErrorV,
            >(e@),
        },
{
    if let Err(e) = validate_coprocessor_output(&output, PipelineStep::RouterResponse) {
        return Err(e);
    }
    let status = match &output.control {
        Some(c) => match c.get_http_status() {
            Ok(s) => s,
            Err(e) => {
                return Err(e);
            },
        },
        None => response.status,
    };
    let headers = match &output.headers {
        Some(m) => match internalize_header_map(m) {
            Ok(hs) => hs,
            Err(he) => {
                return Err(CoprocessorError::Header(he));
            },
        },
        None => response.headers,
    };
    let body = match output.body {
        Some(v) => HttpBody::Json(v),
        None => response.body,
    };
    let context = match output.context {
        Some(c) => c,
        None => response.context,
    };
    Ok(RouterResponse { status, headers, body, context })
}


/// What interpreting a subgraph-request reply yields, mathematically.
pub open spec fn spec_interpret_subgraph_request(output: Externalizable, request: SubgraphRequest)
    -> Result<SubgraphStageOutcomeV, CoprocessorErrorV> {
    match spec_validate(output, PipelineStep::SubgraphRequest) {
        Some(e) => Err(e),
        None => match output.control->0 {
            Control::Break(code) => match (Control::Break(code)).spec_http_status() {
                Err(c) => Err(CoprocessorErrorV::InvalidStatusCode(c)),
                Ok(status) => {
                    let gql = spec_break_body(output.body);
                    match (match output.headers {
                        Some(m) => spec_internalize(multimap_view(m@)),
                        None => Ok(Seq::empty()),
                    }) {
                        Err(he) => Err(CoprocessorErrorV::Header(he)),
                        Ok(hs) => Ok(
                            SubgraphStageOutcomeV::Break(
                                SubgraphResponseV {
                                    status,
                                    headers: hs,
                                    body: gql,
                                    context: match output.context {
                                        Some(c) => c@,
                                        None => request.context@,
                                    },
                                },
                            ),
                        ),
                    }
                },
            },
            Control::Continue => {
                let body_r: Result<GraphqlRequestV, ()> = match output.body {
                    Some(v) => spec_request_from_json(crate::json::json_view(v)),
                    None => Ok(request.body@),
                };
                match body_r {
                    Err(_) => Err(CoprocessorErrorV::BodyNotGraphqlRequest),
                    Ok(body) => match (match output.headers {
                        Some(m) => spec_internalize(multimap_view(m@)),
                        None => Ok(pairs_view(request.headers@)),
                    }) {
                        Err(he) => Err(CoprocessorErrorV::Header(he)),
                        Ok(hs) => match output.uri {
                            Some(u) => if uri_ok(u@) {
                                Ok(
                                    SubgraphStageOutcomeV::Continue(
                                        SubgraphRequestV {
                                            headers: hs,
                                            uri: u@,
                                            method: request.method@,
                                            body,
                                            context: match output.context {
                                                Some(c) => c@,
                                                None => request.context@,
                                            },
                                        },
                                    ),
                                )
                            } else {
                                Err(CoprocessorErrorV::InvalidSubgraphUri(u@))
                            },
                            None => Ok(
                                SubgraphStageOutcomeV::Continue(
                                    SubgraphRequestV {
                                        headers: hs,
                                        uri: request.uri@,
                                        method: request.method@,
                                        body,
                                        context: match output.context {
                                            Some(c) => c@,
                                            None => request.context@,
                                        },
                                    },
                                ),
                            ),
                        },
                    },
                }
            },
        },
    }
}

/// Interprets the coprocessor's reply at the subgraph request stage: after
/// validation, a `Break` short-circuits with a synthesized response, and a
/// `Continue` applies the returned mutations, a returned body having to
/// decode as a query request and a returned URI having to parse.
pub fn interpret_subgraph_request(output: Externalizable, request: SubgraphRequest) -> (r: Result<
    SubgraphStageOutcome,
    CoprocessorError,
>)
    ensures
        match r {
            Ok(outcome) => spec_interpret_subgraph_request(output, request) == Ok::<
                SubgraphStageOutcomeV,
                CoprocessorErrorV,
            >(outcome@),
            Err(e) => spec_interpret_subgraph_request(output, request) == Err::<
                SubgraphStageOutcomeV,
                CoprocessorErrorV,
            >(e@),
        },
{
    if let Err(e) = validate_coprocessor_output(&output, PipelineStep::SubgraphRequest) {
        return Err(e);
    }
    let control = match &output.control {
        Some(c) => *c,
        None => {
            return Err(CoprocessorError::MissingControl);
        },
    };
    match control {
        Control::Break(_) => {
            let status = match control.get_http_status() {
                Ok(s) => s,
                Err(e) => {
                    return Err(e);
                },
            };
            let gql = match &output.body {
                Some(b) => match response_from_json(b) {
                    Ok(g) => g,
                    Err(_) => deser_error_response(),
                },
                None => deser_error_response(),
            };
            proof {
                if output.body is None {
                    assert(spec_response_from_json(JsonV::Null) is Err);
                }
            }
            let headers = match &output.headers {
                Some(m) => match internalize_header_map(m) {
                    Ok(hs) => hs,
                    Err(he) => {
                        return Err(CoprocessorError::Header(he));
                    },
                },
                None => Vec::new(),
            };
            proof {
                assert(pairs_view(Seq::<(String, String)>::empty()) =~= Seq::<
                    (Seq<char>, Seq<char>),
                >::empty());
            }
            let context = match output.context {
                Some(c) => c,
                None => request.context,
            };
            Ok(
                SubgraphStageOutcome::Break(
                    SubgraphResponse { status, headers, body: gql, context },
                ),
            )
        },
        Control::Continue => {
            let body = match &output.body {
                Some(v) => match request_from_json(v) {
                    Ok(b) => b,
                    Err(_) => {
                        return Err(CoprocessorError::BodyNotGraphqlRequest);
                    },
                },
                None => request.body,
            };
            let headers = match &output.headers {
                Some(m) => match internalize_header_map(m) {
                    Ok(hs) => hs,
                    Err(he) => {
                        return Err(CoprocessorError::Header(he));
                    },
                },
                None => request.headers,
            };
            let uri = match output.uri {
                Some(u) => {
                    if !uri_is_valid(&u) {
                        return Err(CoprocessorError::InvalidSubgraphUri(u));
                    }
                    u
                },
                None => request.uri,
            };
            let context = match output.context {
                Some(c) => c,
                None => request.context,
            };
            Ok(
                SubgraphStageOutcome::Continue(
                    SubgraphRequest { headers, uri, method: request.method, body, context },
                ),
            )
        },
    }
}

/// What interpreting a subgraph-response reply yields, mathematically.
pub open spec fn spec_interpret_subgraph_response(
    output: Externalizable,
    response: SubgraphResponse,
) -> Result<SubgraphResponseV, CoprocessorErrorV> {
    match spec_validate(output, PipelineStep::SubgraphResponse) {
        Some(e) => Err(e),
        None => {
            let body_r: Result<GraphqlResponseV, ()> = match output.body {
                Some(v) => spec_response_from_json(crate::json::json_view(v)),
                None => Ok(response.body@),
            };
            match body_r {
                Err(_) => Err(CoprocessorErrorV::BodyNotGraphqlResponse),
                Ok(body) => {
                    let status_r: Result<u16, u16> = match output.control {
                        Some(c) => c.spec_http_status(),
                        None => Ok(response.status),
                    };
                    match status_r {
                        Err(c) => Err(CoprocessorErrorV::InvalidStatusCode(c)),
                        Ok(status) => match (match output.headers {
                            Some(m) => spec_internalize(multimap_view(m@)),
                            None => Ok(pairs_view(response.headers@)),
                        }) {
                            Err(he) => Err(CoprocessorErrorV::Header(he)),
                            Ok(hs) => Ok(
                                SubgraphResponseV {
                                    status,
                                    headers: hs,
                                    body,
                                    context: match output.context {
                                        Some(c) => c@,
                                        None => response.context@,
                                    },
                                },
                            ),
                        },
                    }
                },
            }
        },
    }
}

/// Interprets the coprocessor's reply at the subgraph response stage: after
/// validation, the returned mutations are applied, a returned body having to
/// decode as a query response, and a returned `control` overriding the
/// status.
pub fn interpret_subgraph_response(output: Externalizable, response: SubgraphResponse) -> (r:
    Result<SubgraphResponse, CoprocessorError>)
    ensures
        match r {
            Ok(resp) => spec_interpret_subgraph_response(output, response) == Ok::<
                SubgraphResponseV,
                CoprocessorErrorV,
            >(resp@),
            Err(e) => spec_interpret_subgraph_response(output, response) == Err::<
                SubgraphResponseV,
                CoprocessorErrorV,
            >(e@),
        },
{
    if let Err(e) = validate_coprocessor_output(&output, PipelineStep::SubgraphResponse) {
        return Err(e);
    }
    let body = match &output.body {
        Some(v) => match response_from_json(v) {
            Ok(b) => b,
            Err(_) => {
                return Err(CoprocessorError::BodyNotGraphqlResponse);
            },
        },
        None => response.body,
    };
    let status = match &output.control {
        Some(c) => match c.get_http_status() {
            Ok(s) => s,
            Err(e) => {
                return Err(e);
            },
        },
        None => response.status,
    };
    let headers = match &output.headers {
        Some(m) => match internalize_header_map(m) {
            Ok(hs) => hs,
            Err(he) => {
                return Err(CoprocessorError::Header(he));
            },
        },
        None => response.headers,
    };
    let context = match output.context {
        Some(c) => c,
        None => response.context,
    };
    Ok(SubgraphResponse { status, headers, body, context })
}

// ---------------------------------------------------------------------------
// A reply that changes nothing leaves the request untouched
// ---------------------------------------------------------------------------

/// An envelope that continues and carries no mutation hands the downstream
/// stage the request it found, unchanged in every part.
pub proof fn lemma_router_request_continue_identity(
    output: Externalizable,
    request: RouterRequest,
)
    requires
        output.version == EXTERNALIZABLE_VERSION,
        output.stage@ == PipelineStep::RouterRequest.spec_name(),
        output.control == Some(Control::Continue),
        output.body is None,
        output.headers is None,
        output.context is None,
    ensures
        spec_interpret_router_request(output, request) == Ok::<
            RouterStageOutcomeV,
            CoprocessorErrorV,
        >(RouterStageOutcomeV::Continue(request@)),
{
    assert(spec_validate(output, PipelineStep::RouterRequest) is None);
}

} // verus!
