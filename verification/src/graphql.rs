//! The structured query request and response bodies that subgraph traffic
//! carries, and their JSON shape: the coprocessor receives them as JSON and
//! may hand back replacements, which must decode exactly.
use vstd::prelude::*;
use crate::json::{
    assoc_get, assoc_lookup, json_members_view, json_view, lemma_json_members_view, Json, JsonV,
};

verus! {

/// One error of a query response.
#[derive(Debug, PartialEq, Eq)]
pub struct GraphqlError {
    pub message: String,
    pub extensions: Vec<(String, Json)>,
}

/// The mathematical shape of a [`GraphqlError`].
#[verifier::ext_equal]
pub struct GraphqlErrorV {
    pub message: Seq<char>,
    pub extensions: Seq<(Seq<char>, JsonV)>,
}

impl View for GraphqlError {
    type V = GraphqlErrorV;

    open spec fn view(&self) -> GraphqlErrorV {
        GraphqlErrorV { message: self.message@, extensions: json_members_view(self.extensions@) }
    }
}

/// A query response body.
#[derive(Debug, PartialEq, Eq)]
pub struct GraphqlResponse {
    pub label: Option<String>,
    pub data: Option<Json>,
    pub errors: Vec<GraphqlError>,
    pub extensions: Vec<(String, Json)>,
}

/// The mathematical shape of a [`GraphqlResponse`].
#[verifier::ext_equal]
pub struct GraphqlResponseV {
    pub label: Option<Seq<char>>,
    pub data: Option<JsonV>,
    pub errors: Seq<GraphqlErrorV>,
    pub extensions: Seq<(Seq<char>, JsonV)>,
}

pub open spec fn opt_json_view(v: Option<Json>) -> Option<JsonV> {
    match v {
        Some(j) => Some(json_view(j)),
        None => None,
    }
}

pub open spec fn errors_view(errors: Seq<GraphqlError>) -> Seq<GraphqlErrorV> {
    errors.map_values(|e: GraphqlError| e@)
}

impl View for GraphqlResponse {
    type V = GraphqlResponseV;

    open spec fn view(&self) -> GraphqlResponseV {
        GraphqlResponseV {
            label: crate::selection::opt_string_view(self.label),
            data: opt_json_view(self.data),
            errors: errors_view(self.errors@),
            extensions: json_members_view(self.extensions@),
        }
    }
}

/// A query request body.
#[derive(Debug, PartialEq, Eq)]
pub struct GraphqlRequest {
    pub query: Option<String>,
    pub operation_name: Option<String>,
    pub variables: Vec<(String, Json)>,
    pub extensions: Vec<(String, Json)>,
}

/// The mathematical shape of a [`GraphqlRequest`].
#[verifier::ext_equal]
pub struct GraphqlRequestV {
    pub query: Option<Seq<char>>,
    pub operation_name: Option<Seq<char>>,
    pub variables: Seq<(Seq<char>, JsonV)>,
    pub extensions: Seq<(Seq<char>, JsonV)>,
}

impl View for GraphqlRequest {
    type V = GraphqlRequestV;

    open spec fn view(&self) -> GraphqlRequestV {
        GraphqlRequestV {
            query: crate::selection::opt_string_view(self.query),
            operation_name: crate::selection::opt_string_view(self.operation_name),
            variables: json_members_view(self.variables@),
            extensions: json_members_view(self.extensions@),
        }
    }
}

// ---------------------------------------------------------------------------
// Object member lookup at the mathematical level
// ---------------------------------------------------------------------------

/// The first member under `name`, if any.
pub open spec fn jv_get(members: Seq<(Seq<char>, JsonV)>, name: Seq<char>) -> Option<JsonV>
    decreases members,
{
    if members.len() == 0 {
        None
    } else if members[0].0 == name {
        Some(members[0].1)
    } else {
        jv_get(members.subrange(1, members.len() as int), name)
    }
}

proof fn lemma_jv_get_assoc(members: Seq<(String, Json)>, name: Seq<char>)
    ensures
        jv_get(json_members_view(members), name) == (match assoc_get(members, name) {
            Some(v) => Some(json_view(v)),
            None => None::<JsonV>,
        }),
    decreases members,
{
    lemma_json_members_view(members);
    if members.len() > 0 {
        let rest = members.subrange(1, members.len() as int);
        lemma_jv_get_assoc(rest, name);
        assert(json_members_view(members).subrange(
            1,
            json_members_view(members).len() as int,
        ) =~= json_members_view(rest));
    }
}

/// Looks `name` up among an object's members.
pub fn obj_get<'a>(members: &'a Vec<(String, Json)>, name: &String) -> (r: Option<&'a Json>)
    ensures
        match r {
            Some(v) => jv_get(json_members_view(members@), name@) == Some(v@),
            None => jv_get(json_members_view(members@), name@) is None,
        },
{
    proof {
        lemma_jv_get_assoc(members@, name@);
    }
    assoc_lookup(members, name)
}

// ---------------------------------------------------------------------------
// Decoding a JSON value the coprocessor handed back
// ---------------------------------------------------------------------------

/// What one element of an `errors` array must look like: an object with a
/// string `message`, and optionally an object `extensions`.
pub open spec fn spec_error_from_json(v: JsonV) -> Result<GraphqlErrorV, ()> {
    match v {
        JsonV::Obj(m) => match jv_get(m, "message"@) {
            Some(msg) => match msg {
                JsonV::Str(text) => match jv_get(m, "extensions"@) {
                    None => Ok(GraphqlErrorV { message: text, extensions: Seq::empty() }),
                    Some(ext) => match ext {
                        JsonV::Obj(entries) => Ok(
                            GraphqlErrorV { message: text, extensions: entries },
                        ),
                        _ => Err(()),
                    },
                },
                _ => Err(()),
            },
            None => Err(()),
        },
        _ => Err(()),
    }
}

/// An `errors` array decodes element by element; any bad element spoils it.
pub open spec fn spec_errors_from_json(items: Seq<JsonV>) -> Result<Seq<GraphqlErrorV>, ()>
    decreases items,
{
    if items.len() == 0 {
        Ok(Seq::empty())
    } else {
        match spec_error_from_json(items[0]) {
            Err(_) => Err(()),
            Ok(e) => match spec_errors_from_json(items.subrange(1, items.len() as int)) {
                Err(_) => Err(()),
                Ok(rest) => Ok(seq![e] + rest),
            },
        }
    }
}

/// What a query response handed back as JSON must look like: an object;
/// `label` a string or null or absent; `data` anything, with null and
/// absent alike meaning none; `errors` an array of well-shaped errors or
/// absent; `extensions` an object or absent.
pub open spec fn spec_response_from_json(v: JsonV) -> Result<GraphqlResponseV, ()> {
    match v {
        JsonV::Obj(m) => {
            let label_r: Result<Option<Seq<char>>, ()> = match jv_get(m, "label"@) {
                None => Ok(None),
                Some(lv) => match lv {
                    JsonV::Null => Ok(None),
                    JsonV::Str(s) => Ok(Some(s)),
                    _ => Err(()),
                },
            };
            let data: Option<JsonV> = match jv_get(m, "data"@) {
                None => None,
                Some(dv) => match dv {
                    JsonV::Null => None,
                    _ => Some(dv),
                },
            };
            let errors_r: Result<Seq<GraphqlErrorV>, ()> = match jv_get(m, "errors"@) {
                None => Ok(Seq::empty()),
                Some(ev) => match ev {
                    JsonV::Arr(items) => spec_errors_from_json(items),
                    _ => Err(()),
                },
            };
            let ext_r: Result<Seq<(Seq<char>, JsonV)>, ()> = match jv_get(m, "extensions"@) {
                None => Ok(Seq::empty()),
                Some(xv) => match xv {
                    JsonV::Obj(entries) => Ok(entries),
                    _ => Err(()),
                },
            };
            if label_r is Err || errors_r is Err || ext_r is Err {
                Err(())
            } else {
                Ok(
                    GraphqlResponseV {
                        label: label_r->Ok_0,
                        data,
                        errors: errors_r->Ok_0,
                        extensions: ext_r->Ok_0,
                    },
                )
            }
        },
        _ => Err(()),
    }
}

/// What a query request handed back as JSON must look like: an object;
/// `query` and `operationName` strings or null or absent; `variables` and
/// `extensions` objects or absent.
pub open spec fn spec_request_from_json(v: JsonV) -> Result<GraphqlRequestV, ()> {
    match v {
        JsonV::Obj(m) => {
            let query_r: Result<Option<Seq<char>>, ()> = match jv_get(m, "query"@) {
                None => Ok(None),
                Some(qv) => match qv {
                    JsonV::Null => Ok(None),
                    JsonV::Str(s) => Ok(Some(s)),
                    _ => Err(()),
                },
            };
            let op_r: Result<Option<Seq<char>>, ()> = match jv_get(m, "operationName"@) {
                None => Ok(None),
                Some(ov) => match ov {
                    JsonV::Null => Ok(None),
                    JsonV::Str(s) => Ok(Some(s)),
                    _ => Err(()),
                },
            };
            let vars_r: Result<Seq<(Seq<char>, JsonV)>, ()> = match jv_get(m, "variables"@) {
                None => Ok(Seq::empty()),
                Some(vv) => match vv {
                    JsonV::Obj(entries) => Ok(entries),
                    _ => Err(()),
                },
            };
            let ext_r: Result<Seq<(Seq<char>, JsonV)>, ()> = match jv_get(m, "extensions"@) {
                None => Ok(Seq::empty()),
                Some(xv) => match xv {
                    JsonV::Obj(entries) => Ok(entries),
                    _ => Err(()),
                },
            };
            if query_r is Err || op_r is Err || vars_r is Err || ext_r is Err {
                Err(())
            } else {
                Ok(
                    GraphqlRequestV {
                        query: query_r->Ok_0,
                        operation_name: op_r->Ok_0,
                        variables: vars_r->Ok_0,
                        extensions: ext_r->Ok_0,
                    },
                )
            }
        },
        _ => Err(()),
    }
}

fn error_from_json(v: &Json) -> (r: Result<GraphqlError, ()>)
    ensures
        match r {
            Ok(e) => spec_error_from_json(v@) == Ok::<GraphqlErrorV, ()>(e@),
            Err(_) => spec_error_from_json(v@) is Err,
        },
{
    let members = match v {
        Json::Obj(m) => m,
        _ => {
            return Err(());
        },
    };
    let message = match obj_get(members, &"message".to_owned()) {
        Some(Json::Str(s)) => s.clone(),
        _ => {
            return Err(());
        },
    };
    let extensions = match obj_get(members, &"extensions".to_owned()) {
        None => Vec::new(),
        Some(Json::Obj(e)) => crate::json::clone_members(e),
        Some(_) => {
            return Err(());
        },
    };
    proof {
        assert(json_members_view(Seq::<(String, Json)>::empty()) =~= Seq::<
            (Seq<char>, JsonV),
        >::empty());
    }
    Ok(GraphqlError { message, extensions })
}

fn errors_from_json(items: &Vec<Json>) -> (r: Result<Vec<GraphqlError>, ()>)
    ensures
        match r {
            Ok(es) => spec_errors_from_json(crate::json::json_seq_view(items@)) == Ok::<
                Seq<GraphqlErrorV>,
                (),
            >(errors_view(es@)),
            Err(_) => spec_errors_from_json(crate::json::json_seq_view(items@)) is Err,
        },
{
    let iv = Ghost(crate::json::json_seq_view(items@));
    proof {
        crate::json::lemma_json_seq_view(items@);
    }
    let n = items.len();
    let mut out: Vec<GraphqlError> = Vec::new();
    let mut i: usize = 0;
    proof {
        assert(iv@.subrange(0, n as int) =~= iv@);
        assert(errors_view(out@) =~= Seq::<GraphqlErrorV>::empty());
        assert(spec_errors_from_json(iv@) == (match spec_errors_from_json(iv@) {
            Err(_) => Err::<Seq<GraphqlErrorV>, ()>(()),
            Ok(rest) => Ok(errors_view(out@) + rest),
        })) by {
            if spec_errors_from_json(iv@) is Ok {
                assert(errors_view(out@) + spec_errors_from_json(iv@)->Ok_0 =~= spec_errors_from_json(
                    iv@,
                )->Ok_0);
            }
        }
    }
    while i < n
        invariant
            n == items.len(),
            0 <= i <= n,
            iv@ == crate::json::json_seq_view(items@),
            iv@.len() == n,
            forall|k: int| 0 <= k < n ==> iv@[k] == json_view(items@[k]),
            spec_errors_from_json(iv@) == (match spec_errors_from_json(
                iv@.subrange(i as int, n as int),
            ) {
                Err(_) => Err::<Seq<GraphqlErrorV>, ()>(()),
                Ok(rest) => Ok(errors_view(out@) + rest),
            }),
        decreases n - i,
    {
        proof {
            assert(iv@.subrange(i as int, n as int)[0] == iv@[i as int]);
            assert(iv@.subrange(i as int, n as int).subrange(1, n - i) =~= iv@.subrange(
                i + 1,
                n as int,
            ));
        }
        match error_from_json(&items[i]) {
            Err(_) => {
                return Err(());
            },
            Ok(e) => {
                proof {
                    let rest_r = spec_errors_from_json(iv@.subrange(i + 1, n as int));
                    if rest_r is Ok {
                        assert(errors_view(out@.push(e)) =~= errors_view(out@).push(e@));
                        assert(errors_view(out@) + (seq![e@] + rest_r->Ok_0) =~= errors_view(
                            out@,
                        ).push(e@) + rest_r->Ok_0);
                    }
                }
                out.push(e);
            },
        }
        i += 1;
    }
    proof {
        assert(iv@.subrange(n as int, n as int) =~= Seq::<JsonV>::empty());
        assert(errors_view(out@) + Seq::<GraphqlErrorV>::empty() =~= errors_view(out@));
    }
    Ok(out)
}

/// Decodes a query response from a JSON value the coprocessor handed back.
pub fn response_from_json(v: &Json) -> (r: Result<GraphqlResponse, ()>)
    ensures
        match r {
            Ok(resp) => spec_response_from_json(v@) == Ok::<GraphqlResponseV, ()>(resp@),
            Err(_) => spec_response_from_json(v@) is Err,
        },
{
    let members = match v {
        Json::Obj(m) => m,
        _ => {
            return Err(());
        },
    };
    let label = match obj_get(members, &"label".to_owned()) {
        None => None,
        Some(Json::Null) => None,
        Some(Json::Str(s)) => Some(s.clone()),
        Some(_) => {
            return Err(());
        },
    };
    let data = match obj_get(members, &"data".to_owned()) {
        None => None,
        Some(Json::Null) => None,
        Some(d) => Some(d.deep_clone()),
    };
    let errors = match obj_get(members, &"errors".to_owned()) {
        None => Vec::new(),
        Some(Json::Arr(items)) => match errors_from_json(items) {
            Ok(es) => es,
            Err(_) => {
                return Err(());
            },
        },
        Some(_) => {
            return Err(());
        },
    };
    let extensions = match obj_get(members, &"extensions".to_owned()) {
        None => Vec::new(),
        Some(Json::Obj(e)) => crate::json::clone_members(e),
        Some(_) => {
            return Err(());
        },
    };
    proof {
        assert(errors_view(Seq::<GraphqlError>::empty()) =~= Seq::<GraphqlErrorV>::empty());
        assert(json_members_view(Seq::<(String, Json)>::empty()) =~= Seq::<
            (Seq<char>, JsonV),
        >::empty());
    }
    Ok(GraphqlResponse { label, data, errors, extensions })
}

/// Decodes a query request from a JSON value the coprocessor handed back.
pub fn request_from_json(v: &Json) -> (r: Result<GraphqlRequest, ()>)
    ensures
        match r {
            Ok(req) => spec_request_from_json(v@) == Ok::<GraphqlRequestV, ()>(req@),
            Err(_) => spec_request_from_json(v@) is Err,
        },
{
    let members = match v {
        Json::Obj(m) => m,
        _ => {
            return Err(());
        },
    };
    let query = match obj_get(members, &"query".to_owned()) {
        None => None,
        Some(Json::Null) => None,
        Some(Json::Str(s)) => Some(s.clone()),
        Some(_) => {
            return Err(());
        },
    };
    let operation_name = match obj_get(members, &"operationName".to_owned()) {
        None => None,
        Some(Json::Null) => None,
        Some(Json::Str(s)) => Some(s.clone()),
        Some(_) => {
            return Err(());
        },
    };
    let variables = match obj_get(members, &"variables".to_owned()) {
        None => Vec::new(),
        Some(Json::Obj(e)) => crate::json::clone_members(e),
        Some(_) => {
            return Err(());
        },
    };
    let extensions = match obj_get(members, &"extensions".to_owned()) {
        None => Vec::new(),
        Some(Json::Obj(e)) => crate::json::clone_members(e),
        Some(_) => {
            return Err(());
        },
    };
    proof {
        assert(json_members_view(Seq::<(String, Json)>::empty()) =~= Seq::<
            (Seq<char>, JsonV),
        >::empty());
    }
    Ok(GraphqlRequest { query, operation_name, variables, extensions })
}

// ---------------------------------------------------------------------------
// Encoding a body as a JSON value to send out
// ---------------------------------------------------------------------------

/// The JSON shape of one error: the message, and the extensions when any.
pub open spec fn spec_error_to_json(e: GraphqlErrorV) -> JsonV {
    JsonV::Obj(
        seq![("message"@, JsonV::Str(e.message))] + if e.extensions.len() > 0 {
            seq![("extensions"@, JsonV::Obj(e.extensions))]
        } else {
            Seq::empty()
        },
    )
}

pub open spec fn spec_errors_to_json(errors: Seq<GraphqlErrorV>) -> Seq<JsonV> {
    errors.map_values(|e: GraphqlErrorV| spec_error_to_json(e))
}

/// The JSON shape of a query response: present fields only, in the order
/// label, data, errors, extensions; empty error and extension lists are
/// left out.
pub open spec fn spec_response_to_json(r: GraphqlResponseV) -> JsonV {
    JsonV::Obj(
        (match r.label {
            Some(l) => seq![("label"@, JsonV::Str(l))],
            None => Seq::empty(),
        }) + (match r.data {
            Some(d) => seq![("data"@, d)],
            None => Seq::empty(),
        }) + (if r.errors.len() > 0 {
            seq![("errors"@, JsonV::Arr(spec_errors_to_json(r.errors)))]
        } else {
            Seq::empty()
        }) + (if r.extensions.len() > 0 {
            seq![("extensions"@, JsonV::Obj(r.extensions))]
        } else {
            Seq::empty()
        }),
    )
}

/// The JSON shape of a query request: present fields only, in the order
/// query, operationName, variables, extensions; empty variable and
/// extension lists are left out.
pub open spec fn spec_request_to_json(r: GraphqlRequestV) -> JsonV {
    JsonV::Obj(
        (match r.query {
            Some(q) => seq![("query"@, JsonV::Str(q))],
            None => Seq::empty(),
        }) + (match r.operation_name {
            Some(o) => seq![("operationName"@, JsonV::Str(o))],
            None => Seq::empty(),
        }) + (if r.variables.len() > 0 {
            seq![("variables"@, JsonV::Obj(r.variables))]
        } else {
            Seq::empty()
        }) + (if r.extensions.len() > 0 {
            seq![("extensions"@, JsonV::Obj(r.extensions))]
        } else {
            Seq::empty()
        }),
    )
}

fn error_to_json(e: &GraphqlError) -> (r: Json)
    ensures
        r@ == spec_error_to_json(e@),
{
    let mut members: Vec<(String, Json)> = Vec::new();
    members.push(("message".to_owned(), Json::Str(e.message.clone())));
    if e.extensions.len() > 0 {
        members.push(("extensions".to_owned(), Json::Obj(crate::json::clone_members(
            &e.extensions,
        ))));
    }
    proof {
        crate::json::lemma_json_members_view(members@);
        assert(json_members_view(members@) =~= spec_error_to_json(e@)->Obj_0);
    }
    Json::Obj(members)
}

fn errors_to_json(errors: &Vec<GraphqlError>) -> (r: Vec<Json>)
    ensures
        crate::json::json_seq_view(r@) == spec_errors_to_json(errors_view(errors@)),
{
    let n = errors.len();
    let mut out: Vec<Json> = Vec::new();
    let mut i: usize = 0;
    proof {
        assert(crate::json::json_seq_view(out@) =~= spec_errors_to_json(
            errors_view(errors@).subrange(0, 0),
        ));
    }
    while i < n
        invariant
            n == errors.len(),
            0 <= i <= n,
            crate::json::json_seq_view(out@) == spec_errors_to_json(
                errors_view(errors@).subrange(0, i as int),
            ),
        decreases n - i,
    {
        let j = error_to_json(&errors[i]);
        proof {
            crate::json::lemma_json_seq_view_push(out@, j);
            assert(errors_view(errors@).subrange(0, i + 1) =~= errors_view(errors@).subrange(
                0,
                i as int,
            ).push(errors@[i as int]@));
            assert(spec_errors_to_json(errors_view(errors@).subrange(0, i as int).push(
                errors@[i as int]@,
            )) =~= spec_errors_to_json(errors_view(errors@).subrange(0, i as int)).push(
                spec_error_to_json(errors@[i as int]@),
            ));
        }
        out.push(j);
        i += 1;
    }
    proof {
        assert(errors_view(errors@).subrange(0, n as int) =~= errors_view(errors@));
    }
    out
}

/// Encodes a query response as the JSON value to send out.
pub fn response_to_json(resp: &GraphqlResponse) -> (r: Json)
    ensures
        r@ == spec_response_to_json(resp@),
{
    let mut members: Vec<(String, Json)> = Vec::new();
    match &resp.label {
        Some(l) => members.push(("label".to_owned(), Json::Str(l.clone()))),
        None => {},
    }
    match &resp.data {
        Some(d) => members.push(("data".to_owned(), d.deep_clone())),
        None => {},
    }
    if resp.errors.len() > 0 {
        members.push(("errors".to_owned(), Json::Arr(errors_to_json(&resp.errors))));
    }
    if resp.extensions.len() > 0 {
        members.push(("extensions".to_owned(), Json::Obj(crate::json::clone_members(
            &resp.extensions,
        ))));
    }
    proof {
        crate::json::lemma_json_members_view(members@);
        assert(json_members_view(members@) =~= spec_response_to_json(resp@)->Obj_0);
    }
    Json::Obj(members)
}

/// Encodes a query request as the JSON value to send out.
pub fn request_to_json(req: &GraphqlRequest) -> (r: Json)
    ensures
        r@ == spec_request_to_json(req@),
{
    let mut members: Vec<(String, Json)> = Vec::new();
    match &req.query {
        Some(q) => members.push(("query".to_owned(), Json::Str(q.clone()))),
        None => {},
    }
    match &req.operation_name {
        Some(o) => members.push(("operationName".to_owned(), Json::Str(o.clone()))),
        None => {},
    }
    if req.variables.len() > 0 {
        members.push(("variables".to_owned(), Json::Obj(crate::json::clone_members(
            &req.variables,
        ))));
    }
    if req.extensions.len() > 0 {
        members.push(("extensions".to_owned(), Json::Obj(crate::json::clone_members(
            &req.extensions,
        ))));
    }
    proof {
        crate::json::lemma_json_members_view(members@);
        assert(json_members_view(members@) =~= spec_request_to_json(req@)->Obj_0);
    }
    Json::Obj(members)
}


// ---------------------------------------------------------------------------
// The body codec coheres
// ---------------------------------------------------------------------------

proof fn lemma_jv_get_concat(a: Seq<(Seq<char>, JsonV)>, b: Seq<(Seq<char>, JsonV)>, name: Seq<char>)
    ensures
        jv_get(a + b, name) == (match jv_get(a, name) {
            Some(v) => Some(v),
            None => jv_get(b, name),
        }),
    decreases a,
{
    if a.len() == 0 {
        assert(a + b =~= b);
    } else {
        assert((a + b)[0] == a[0]);
        assert((a + b).subrange(1, (a + b).len() as int) =~= a.subrange(1, a.len() as int) + b);
        lemma_jv_get_concat(a.subrange(1, a.len() as int), b, name);
    }
}

proof fn lemma_jv_get_singleton(k: Seq<char>, v: JsonV, name: Seq<char>)
    ensures
        jv_get(seq![(k, v)], name) == (if k == name {
            Some(v)
        } else {
            None::<JsonV>
        }),
{
    assert(seq![(k, v)].len() == 1);
    assert(seq![(k, v)][0] == (k, v));
    assert(seq![(k, v)].subrange(1, 1) =~= Seq::<(Seq<char>, JsonV)>::empty());
    assert(jv_get(Seq::<(Seq<char>, JsonV)>::empty(), name) is None);
}

proof fn lemma_field_keys_distinct()
    ensures
        "query"@ != "operationName"@,
        "query"@ != "variables"@,
        "query"@ != "extensions"@,
        "operationName"@ != "variables"@,
        "operationName"@ != "extensions"@,
        "variables"@ != "extensions"@,
{
    reveal_strlit("query");
    reveal_strlit("operationName");
    reveal_strlit("variables");
    reveal_strlit("extensions");
    assert("query"@.len() == 5);
    assert("operationName"@.len() == 13);
    assert("variables"@.len() == 9);
    assert("extensions"@.len() == 10);
}

/// The body codec coheres: a query request encoded as JSON and handed back
/// unchanged decodes to the very request, so a coprocessor that echoes the
/// body leaves the in-flight request's body as it was.
pub proof fn lemma_request_json_round_trip(r: GraphqlRequestV)
    ensures
        spec_request_from_json(spec_request_to_json(r)) == Ok::<GraphqlRequestV, ()>(r),
{
    lemma_field_keys_distinct();
    let qs = match r.query {
        Some(q) => seq![("query"@, JsonV::Str(q))],
        None => Seq::<(Seq<char>, JsonV)>::empty(),
    };
    let os = match r.operation_name {
        Some(o) => seq![("operationName"@, JsonV::Str(o))],
        None => Seq::<(Seq<char>, JsonV)>::empty(),
    };
    let vs = if r.variables.len() > 0 {
        seq![("variables"@, JsonV::Obj(r.variables))]
    } else {
        Seq::<(Seq<char>, JsonV)>::empty()
    };
    let xs = if r.extensions.len() > 0 {
        seq![("extensions"@, JsonV::Obj(r.extensions))]
    } else {
        Seq::<(Seq<char>, JsonV)>::empty()
    };
    let whole = qs + os + vs + xs;
    assert forall|name: Seq<char>| true implies #[trigger] jv_get(whole, name) == (
    match jv_get(qs, name) {
        Some(v) => Some(v),
        None => match jv_get(os, name) {
            Some(v) => Some(v),
            None => match jv_get(vs, name) {
                Some(v) => Some(v),
                None => jv_get(xs, name),
            },
        },
    }) by {
        lemma_jv_get_concat(qs + os + vs, xs, name);
        lemma_jv_get_concat(qs + os, vs, name);
        lemma_jv_get_concat(qs, os, name);
    }
    let keys = seq!["query"@, "operationName"@, "variables"@, "extensions"@];
    assert forall|i: int| 0 <= i < 4 implies {
        &&& #[trigger] jv_get(qs, keys[i]) == (if keys[i] == "query"@ {
            match r.query {
                Some(q) => Some(JsonV::Str(q)),
                None => None::<JsonV>,
            }
        } else {
            None::<JsonV>
        })
        &&& jv_get(os, keys[i]) == (if keys[i] == "operationName"@ {
            match r.operation_name {
                Some(o) => Some(JsonV::Str(o)),
                None => None::<JsonV>,
            }
        } else {
            None::<JsonV>
        })
        &&& jv_get(vs, keys[i]) == (if keys[i] == "variables"@ && r.variables.len() > 0 {
            Some(JsonV::Obj(r.variables))
        } else {
            None::<JsonV>
        })
        &&& jv_get(xs, keys[i]) == (if keys[i] == "extensions"@ && r.extensions.len() > 0 {
            Some(JsonV::Obj(r.extensions))
        } else {
            None::<JsonV>
        })
    } by {
        match r.query {
            Some(q) => lemma_jv_get_singleton("query"@, JsonV::Str(q), keys[i]),
            None => {},
        }
        match r.operation_name {
            Some(o) => lemma_jv_get_singleton("operationName"@, JsonV::Str(o), keys[i]),
            None => {},
        }
        if r.variables.len() > 0 {
            lemma_jv_get_singleton("variables"@, JsonV::Obj(r.variables), keys[i]);
        }
        if r.extensions.len() > 0 {
            lemma_jv_get_singleton("extensions"@, JsonV::Obj(r.extensions), keys[i]);
        }
    }
    assert(keys[0] == "query"@);
    assert(keys[1] == "operationName"@);
    assert(keys[2] == "variables"@);
    assert(keys[3] == "extensions"@);
    let decoded = spec_request_from_json(JsonV::Obj(whole));
    assert(decoded is Ok);
    assert(decoded->Ok_0 =~~= r);
}


proof fn lemma_error_json_round_trip(e: GraphqlErrorV)
    ensures
        spec_error_from_json(spec_error_to_json(e)) == Ok::<GraphqlErrorV, ()>(e),
{
    assert("message"@ != "extensions"@) by {
        reveal_strlit("message");
        reveal_strlit("extensions");
        assert("message"@.len() == 7);
        assert("extensions"@.len() == 10);
    }
    let ms = seq![("message"@, JsonV::Str(e.message))];
    let xs = if e.extensions.len() > 0 {
        seq![("extensions"@, JsonV::Obj(e.extensions))]
    } else {
        Seq::<(Seq<char>, JsonV)>::empty()
    };
    let whole = ms + xs;
    lemma_jv_get_concat(ms, xs, "message"@);
    lemma_jv_get_concat(ms, xs, "extensions"@);
    lemma_jv_get_singleton("message"@, JsonV::Str(e.message), "message"@);
    lemma_jv_get_singleton("message"@, JsonV::Str(e.message), "extensions"@);
    if e.extensions.len() > 0 {
        lemma_jv_get_singleton("extensions"@, JsonV::Obj(e.extensions), "message"@);
        lemma_jv_get_singleton("extensions"@, JsonV::Obj(e.extensions), "extensions"@);
    } else {
        assert(jv_get(xs, "message"@) is None);
        assert(jv_get(xs, "extensions"@) is None);
    }
    let decoded = spec_error_from_json(JsonV::Obj(whole));
    assert(decoded is Ok);
    assert(decoded->Ok_0 =~~= e);
}

proof fn lemma_errors_json_round_trip(es: Seq<GraphqlErrorV>)
    ensures
        spec_errors_from_json(spec_errors_to_json(es)) == Ok::<Seq<GraphqlErrorV>, ()>(es),
    decreases es,
{
    if es.len() == 0 {
        assert(spec_errors_to_json(es) =~= Seq::<JsonV>::empty());
        assert(es =~= Seq::<GraphqlErrorV>::empty());
    } else {
        let rest = es.subrange(1, es.len() as int);
        lemma_error_json_round_trip(es[0]);
        lemma_errors_json_round_trip(rest);
        let enc = spec_errors_to_json(es);
        assert(enc.len() == es.len());
        assert(enc[0] == spec_error_to_json(es[0]));
        assert(enc.subrange(1, enc.len() as int) =~= spec_errors_to_json(rest));
        assert(seq![es[0]] + rest =~= es);
        assert(spec_errors_from_json(enc) == Ok::<Seq<GraphqlErrorV>, ()>(seq![es[0]] + rest));
    }
}

/// The body codec coheres on the response side too: a query response
/// encoded as JSON and handed back unchanged decodes to the very response.
/// The one exception is a carried `data` of JSON null, which the decoded
/// shape cannot tell from an absent `data`.
pub proof fn lemma_response_json_round_trip(r: GraphqlResponseV)
    requires
        r.data != Some(JsonV::Null),
    ensures
        spec_response_from_json(spec_response_to_json(r)) == Ok::<GraphqlResponseV, ()>(r),
{
    assert("label"@ != "data"@ && "label"@ != "errors"@ && "label"@ != "extensions"@ && "data"@
        != "errors"@ && "data"@ != "extensions"@ && "errors"@ != "extensions"@) by {
        reveal_strlit("label");
        reveal_strlit("data");
        reveal_strlit("errors");
        reveal_strlit("extensions");
        assert("label"@.len() == 5);
        assert("data"@.len() == 4);
        assert("errors"@.len() == 6);
        assert("extensions"@.len() == 10);
    }
    let ls = match r.label {
        Some(l) => seq![("label"@, JsonV::Str(l))],
        None => Seq::<(Seq<char>, JsonV)>::empty(),
    };
    let ds = match r.data {
        Some(d) => seq![("data"@, d)],
        None => Seq::<(Seq<char>, JsonV)>::empty(),
    };
    let es = if r.errors.len() > 0 {
        seq![("errors"@, JsonV::Arr(spec_errors_to_json(r.errors)))]
    } else {
        Seq::<(Seq<char>, JsonV)>::empty()
    };
    let xs = if r.extensions.len() > 0 {
        seq![("extensions"@, JsonV::Obj(r.extensions))]
    } else {
        Seq::<(Seq<char>, JsonV)>::empty()
    };
    let whole = ls + ds + es + xs;
    let keys = seq!["label"@, "data"@, "errors"@, "extensions"@];
    assert forall|i: int| 0 <= i < 4 implies #[trigger] jv_get(whole, keys[i]) == (
    match jv_get(ls, keys[i]) {
        Some(v) => Some(v),
        None => match jv_get(ds, keys[i]) {
            Some(v) => Some(v),
            None => match jv_get(es, keys[i]) {
                Some(v) => Some(v),
                None => jv_get(xs, keys[i]),
            },
        },
    }) by {
        lemma_jv_get_concat(ls + ds + es, xs, keys[i]);
        lemma_jv_get_concat(ls + ds, es, keys[i]);
        lemma_jv_get_concat(ls, ds, keys[i]);
    }
    assert forall|i: int| 0 <= i < 4 implies {
        &&& #[trigger] jv_get(ls, keys[i]) == (if keys[i] == "label"@ {
            match r.label {
                Some(l) => Some(JsonV::Str(l)),
                None => None::<JsonV>,
            }
        } else {
            None::<JsonV>
        })
        &&& jv_get(ds, keys[i]) == (if keys[i] == "data"@ {
            r.data
        } else {
            None::<JsonV>
        })
        &&& jv_get(es, keys[i]) == (if keys[i] == "errors"@ && r.errors.len() > 0 {
            Some(JsonV::Arr(spec_errors_to_json(r.errors)))
        } else {
            None::<JsonV>
        })
        &&& jv_get(xs, keys[i]) == (if keys[i] == "extensions"@ && r.extensions.len() > 0 {
            Some(JsonV::Obj(r.extensions))
        } else {
            None::<JsonV>
        })
    } by {
        match r.label {
            Some(l) => lemma_jv_get_singleton("label"@, JsonV::Str(l), keys[i]),
            None => {},
        }
        match r.data {
            Some(d) => lemma_jv_get_singleton("data"@, d, keys[i]),
            None => {},
        }
        if r.errors.len() > 0 {
            lemma_jv_get_singleton("errors"@, JsonV::Arr(spec_errors_to_json(r.errors)), keys[i]);
        }
        if r.extensions.len() > 0 {
            lemma_jv_get_singleton("extensions"@, JsonV::Obj(r.extensions), keys[i]);
        }
    }
    assert(keys[0] == "label"@);
    assert(keys[1] == "data"@);
    assert(keys[2] == "errors"@);
    assert(keys[3] == "extensions"@);
    lemma_errors_json_round_trip(r.errors);
    let decoded = spec_response_from_json(JsonV::Obj(whole));
    assert(decoded is Ok);
    assert(decoded->Ok_0 =~~= r);
}

} // verus!
