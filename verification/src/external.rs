//! The wire contract with the coprocessor: the versioned envelope, the
//! pipeline stage names, the control protocol, and the checks every received
//! reply must pass.
use vstd::prelude::*;
use crate::context::Context;
use crate::headers::HeaderError;
use crate::json::Json;

verus! {

/// The schema generation of the envelope; a received reply must carry it
/// exactly.
pub const EXTERNALIZABLE_VERSION: u8 = 1;

/// The coprocessor call timeout that applies when none is configured, in
/// milliseconds.
pub fn default_timeout() -> (r: u64)
    ensures
        r == 1000,
{
    1000
}

/// One of the four pipeline points a coprocessor can be attached to.
#[derive(Debug, Clone, Copy, PartialEq, Eq, Structural)]
pub enum PipelineStep {
    RouterRequest,
    RouterResponse,
    SubgraphRequest,
    SubgraphResponse,
}

impl PipelineStep {
    /// The stage string this point sends and expects back.
    pub open spec fn spec_name(self) -> Seq<char> {
        match self {
            PipelineStep::RouterRequest => "RouterRequest"@,
            PipelineStep::RouterResponse => "RouterResponse"@,
            PipelineStep::SubgraphRequest => "SubgraphRequest"@,
            PipelineStep::SubgraphResponse => "SubgraphResponse"@,
        }
    }

    /// The stage string this point sends and expects back.
    pub fn stage_name(&self) -> (r: String)
        ensures
            r@ == self.spec_name(),
    {
        match self {
            PipelineStep::RouterRequest => "RouterRequest".to_owned(),
            PipelineStep::RouterResponse => "RouterResponse".to_owned(),
            PipelineStep::SubgraphRequest => "SubgraphRequest".to_owned(),
            PipelineStep::SubgraphResponse => "SubgraphResponse".to_owned(),
        }
    }

    /// Whether this point intercepts a request (rather than a response): the
    /// points on which a received envelope must carry `control`.
    pub open spec fn spec_is_request(self) -> bool {
        self == PipelineStep::RouterRequest || self == PipelineStep::SubgraphRequest
    }

    /// Whether this point intercepts a request (rather than a response).
    pub fn is_request(&self) -> (r: bool)
        ensures
            r == self.spec_is_request(),
    {
        matches!(self, PipelineStep::RouterRequest | PipelineStep::SubgraphRequest)
    }
}

/// The control protocol: continue down the pipeline, or break out of it with
/// an optional HTTP status.
#[derive(Debug, Clone, Copy, PartialEq, Eq, Structural)]
pub enum Control {
    Continue,
    Break(Option<u16>),
}

impl Control {
    /// The suggested default on every request stage.
    pub fn default_continue() -> (r: Control)
        ensures
            r == Control::Continue,
    {
        Control::Continue
    }

    /// The HTTP status this control resolves to: 200 when unspecified, the
    /// carried code when it lies in 100..=599, and an error otherwise, with
    /// the offending code.
    pub open spec fn spec_http_status(self) -> Result<u16, u16> {
        match self {
            Control::Continue => Ok(200),
            Control::Break(code) => match code {
                None => Ok(200),
                Some(c) => if 100 <= c && c <= 599 {
                    Ok(c)
                } else {
                    Err(c)
                },
            },
        }
    }

    /// Resolves this control to an HTTP status.
    pub fn get_http_status(&self) -> (r: Result<u16, CoprocessorError>)
        ensures
            match r {
                Ok(code) => self.spec_http_status() == Ok::<u16, u16>(code),
                Err(e) => self.spec_http_status() matches Err(c) && e@
                    == CoprocessorErrorV::InvalidStatusCode(c),
            },
    {
        match self {
            Control::Continue => Ok(200),
            Control::Break(code) => match code {
                None => Ok(200),
                Some(c) => if 100 <= *c && *c <= 599 {
                    Ok(*c)
                } else {
                    Err(CoprocessorError::InvalidStatusCode(*c))
                },
            },
        }
    }
}

/// Why a coprocessor exchange failed.
#[derive(Debug, PartialEq, Eq)]
pub enum CoprocessorError {
    /// The reply's version differs from the one the router was built
    /// against; the stray version is carried.
    WrongVersion(u8),
    /// The reply names another stage than the one it was sent for; the
    /// stray stage string is carried.
    WrongStage(String),
    /// A reply at a request stage came without `control`.
    MissingControl,
    /// A `Break` carried a status outside 100..=599.
    InvalidStatusCode(u16),
    /// A returned header could not be taken back.
    Header(HeaderError),
    /// The in-flight response body was not JSON, though the configuration
    /// asked to send it.
    BodyNotJson,
    /// A returned body could not be read as a query request.
    BodyNotGraphqlRequest,
    /// A returned body could not be read as a query response.
    BodyNotGraphqlResponse,
    /// A returned subgraph URI did not parse; the stray string is carried.
    InvalidSubgraphUri(String),
}

/// The mathematical shape of a [`CoprocessorError`].
#[verifier::ext_equal]
pub enum CoprocessorErrorV {
    WrongVersion(u8),
    WrongStage(Seq<char>),
    MissingControl,
    InvalidStatusCode(u16),
    Header(crate::headers::HeaderErrorV),
    BodyNotJson,
    BodyNotGraphqlRequest,
    BodyNotGraphqlResponse,
    InvalidSubgraphUri(Seq<char>),
}

impl View for CoprocessorError {
    type V = CoprocessorErrorV;

    open spec fn view(&self) -> CoprocessorErrorV {
        match self {
            CoprocessorError::WrongVersion(v) => CoprocessorErrorV::WrongVersion(*v),
            CoprocessorError::WrongStage(s) => CoprocessorErrorV::WrongStage(s@),
            CoprocessorError::MissingControl => CoprocessorErrorV::MissingControl,
            CoprocessorError::InvalidStatusCode(c) => CoprocessorErrorV::InvalidStatusCode(*c),
            CoprocessorError::Header(e) => CoprocessorErrorV::Header(e@),
            CoprocessorError::BodyNotJson => CoprocessorErrorV::BodyNotJson,
            CoprocessorError::BodyNotGraphqlRequest => CoprocessorErrorV::BodyNotGraphqlRequest,
            CoprocessorError::BodyNotGraphqlResponse => CoprocessorErrorV::BodyNotGraphqlResponse,
            CoprocessorError::InvalidSubgraphUri(s) => CoprocessorErrorV::InvalidSubgraphUri(s@),
        }
    }
}

/// The envelope exchanged with the coprocessor: all fields beyond `version`
/// and `stage` travel only when the configuration or the reply carries them.
#[derive(Debug, PartialEq, Eq)]
pub struct Externalizable {
    pub version: u8,
    pub stage: String,
    pub control: Option<Control>,
    pub id: Option<String>,
    pub headers: Option<Vec<(String, Vec<String>)>>,
    pub body: Option<Json>,
    pub context: Option<Context>,
    pub sdl: Option<String>,
    pub uri: Option<String>,
    pub path: Option<String>,
    pub method: Option<String>,
    pub service_name: Option<String>,
    pub status_code: Option<u16>,
}

/// What `validate_coprocessor_output` rejects: the wrong version first, then
/// the wrong stage, then a missing `control` at a request stage; a reply
/// that carries the right version, the right stage and, at request stages,
/// some `control`, passes.
pub open spec fn spec_validate(output: Externalizable, expected: PipelineStep) -> Option<
    CoprocessorErrorV,
> {
    if output.version != EXTERNALIZABLE_VERSION {
        Some(CoprocessorErrorV::WrongVersion(output.version))
    } else if output.stage@ != expected.spec_name() {
        Some(CoprocessorErrorV::WrongStage(output.stage@))
    } else if expected.spec_is_request() && output.control is None {
        Some(CoprocessorErrorV::MissingControl)
    } else {
        None
    }
}

/// Checks a received envelope against the stage it was sent for.
pub fn validate_coprocessor_output(output: &Externalizable, expected: PipelineStep) -> (r: Result<
    (),
    CoprocessorError,
>)
    ensures
        match r {
            Ok(_) => spec_validate(*output, expected) is None,
            Err(e) => spec_validate(*output, expected) == Some(e@),
        },
{
    if output.version != EXTERNALIZABLE_VERSION {
        return Err(CoprocessorError::WrongVersion(output.version));
    }
    let expected_name = expected.stage_name();
    if output.stage != expected_name {
        return Err(CoprocessorError::WrongStage(output.stage.clone()));
    }
    if expected.is_request() && output.control.is_none() {
        return Err(CoprocessorError::MissingControl);
    }
    Ok(())
}

} // verus!
