//! The execution stage: it takes a planned request, lets the plan fan out
//! across the subgraph services, and assembles the response around the very
//! context the request arrived with.
use vstd::prelude::*;
use crate::context::Context;
use crate::coprocessor::{HttpBody, RouterResponse};
use crate::json::Json;
use crate::selection::Schema;

verus! {

/// The named mapping from subgraph identifier to its service: immutable
/// after construction, shared by every in-flight plan. The services
/// themselves live outside this model; the registry answers which names can
/// be dispatched to.
#[derive(Debug, PartialEq, Eq)]
pub struct ServiceRegistry {
    pub names: Vec<String>,
}

impl ServiceRegistry {
    /// Builds the registry over the given subgraph names.
    pub fn new(names: Vec<String>) -> (r: ServiceRegistry)
        ensures
            r.names == names,
    {
        ServiceRegistry { names }
    }

    /// Whether some entry carries `name`.
    pub open spec fn spec_has(&self, name: Seq<char>) -> bool {
        exists|i: int| 0 <= i < self.names@.len() && (#[trigger] self.names@[i])@ == name
    }

    /// Looks a subgraph name up; a miss is a planner-logic error, for the
    /// caller to surface.
    pub fn has(&self, name: &String) -> (r: bool)
        ensures
            r == self.spec_has(name@),
    {
        let n = self.names.len();
        let mut i: usize = 0;
        while i < n
            invariant
                n == self.names.len(),
                0 <= i <= n,
                forall|j: int| 0 <= j < i ==> (#[trigger] self.names@[j])@ != name@,
            decreases n - i,
        {
            if self.names[i] == *name {
                return true;
            }
            i += 1;
        }
        false
    }
}

/// A planned request: the query plan itself is an external collaborator
/// with an `execute` entry point; the stage carries the request's context
/// through.
#[derive(Debug, PartialEq, Eq)]
pub struct PlannedRequest {
    pub context: Context,
}

/// The execution stage: schema in hand, it drives a plan against the
/// registry.
#[derive(Debug, PartialEq, Eq)]
pub struct ExecutionService {
    pub schema: Schema,
    pub subgraph_services: ServiceRegistry,
}

impl ExecutionService {
    /// Builds the stage around a schema and the per-subgraph services.
    pub fn new(schema: Schema, subgraph_services: ServiceRegistry) -> (r: ExecutionService)
        ensures
            r.schema == schema,
            r.subgraph_services == subgraph_services,
    {
        ExecutionService { schema, subgraph_services }
    }

    /// The stage's readiness: unconditionally ready, on purpose. A
    /// federated execution stage may fan out to many subgraphs; blocking
    /// intake on the readiness of all of them would be pathological at
    /// fleet scale, so backpressure, if ever added, must be selective
    /// rather than global.
    pub fn ready(&self) -> (r: bool)
        ensures
            r,
    {
        true
    }

    /// Assembles the stage's response once the plan has produced `body`:
    /// a fresh 200 response around that body, whose context is the very
    /// context the request arrived with. Context mutations made inside
    /// subgraph calls travel through that shared context, not through any
    /// merging here.
    pub fn assemble_response(&self, req: PlannedRequest, body: Json) -> (r: RouterResponse)
        ensures
            r.status == 200,
            r.headers@.len() == 0,
            r.body == HttpBody::Json(body),
            r.context == req.context,
    {
        RouterResponse {
            status: 200,
            headers: Vec::new(),
            body: HttpBody::Json(body),
            context: req.context,
        }
    }
}

} // verus!
