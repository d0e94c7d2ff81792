use vstd::prelude::*;

verus! {

/// Request methods.
#[derive(PartialEq, Eq, Structural, Clone, Copy, Debug)]
pub enum Method {
    Get,
    Post,
    Put,
    Delete,
    Patch,
}

/// Response statuses.
#[derive(PartialEq, Eq, Structural, Clone, Copy, Debug)]
pub enum Status {
    /// `200 OK`.
    Success,
    BadRequest,
    Unauthorized,
    Forbidden,
    NotFound,
    Conflict,
    MethodNotAllowed,
    InternalServerError,
    NotImplemented,
}

/// The header of a request: what the handlers dispatch on.
#[derive(Debug)]
pub struct Request {
    /// Correlates the response with this request.
    pub id: u32,
    /// `None` where the method was not one this protocol knows.
    pub method: Option<Method>,
    pub path: String,
    /// Whether a body follows the header.
    pub has_body: bool,
}

/// The error description carried by a failed response.
#[derive(Debug)]
pub struct ApiError {
    /// The path of the request that failed.
    pub path: String,
    pub method: Option<Method>,
    pub message: String,
}

/// A response to a request.
#[derive(Debug)]
pub struct Response {
    /// The id of the request answered.
    pub re: u32,
    pub status: Status,
    /// Present on every failure.
    pub error: Option<ApiError>,
    /// The response body, when the operation returns one.
    pub body: Option<Vec<u8>>,
}

impl Request {
    /// Whether this is a `POST` to `path`.
    pub open spec fn is_post_to(&self, path: Seq<char>) -> bool {
        self.method == Some(Method::Post) && self.path@ == path
    }
}

impl Response {
    /// A successful answer to `req` with no body.
    pub open spec fn is_ok_for(&self, req: &Request) -> bool {
        &&& self.re == req.id
        &&& self.status == Status::Success
        &&& self.error is None
        &&& self.body is None
    }

    /// A failed answer to `req` with the given status and message.
    pub open spec fn is_error_for(&self, req: &Request, status: Status, message: Seq<char>) -> bool {
        &&& self.re == req.id
        &&& self.status == status
        &&& self.body is None
        &&& self.error matches Some(e) && e.path@ == req.path@ && e.method == req.method
            && e.message@ == message
    }

    /// The message of a failed response, if any.
    pub open spec fn message(&self) -> Option<Seq<char>> {
        match self.error {
            Some(e) => Some(e.message@),
            None => None,
        }
    }
}

/// Whether `path` reads `lit`.
pub fn path_is(path: &String, lit: &str) -> (r: bool)
    ensures
        r == (path@ == lit@),
{
    let l = lit.to_owned();
    *path == l
}

/// Whether `req` is a `POST` to `lit`.
pub fn is_post_to(req: &Request, lit: &str) -> (r: bool)
    ensures
        r == req.is_post_to(lit@),
{
    match req.method {
        Some(Method::Post) => path_is(&req.path, lit),
        _ => false,
    }
}

/// `200 OK` for `req`, with no body.
pub fn ok(req: &Request) -> (r: Response)
    ensures
        r.is_ok_for(req),
{
    Response { re: req.id, status: Status::Success, error: None, body: None }
}

/// `200 OK` for `req`, carrying `body`.
pub fn ok_with_body(req: &Request, body: Vec<u8>) -> (r: Response)
    ensures
        r.re == req.id,
        r.status == Status::Success,
        r.error is None,
        r.body == Some(body),
{
    Response { re: req.id, status: Status::Success, error: None, body: Some(body) }
}

/// A failed answer to `req`.
pub fn error_response(req: &Request, status: Status, message: &str) -> (r: Response)
    ensures
        r.is_error_for(req, status, message@),
{
    let e = ApiError { path: req.path.clone(), method: req.method, message: message.to_owned() };
    Response { re: req.id, status, error: Some(e), body: None }
}

/// The answer to a request for a path the handler does not serve.
pub fn unknown_path(req: &Request) -> (r: Response)
    ensures
        r.is_error_for(req, Status::BadRequest, "unknown path"@),
{
    error_response(req, Status::BadRequest, "unknown path")
}

/// The answer to a request refused for want of authorization.
pub fn forbidden(req: &Request, message: &str) -> (r: Response)
    ensures
        r.is_error_for(req, Status::Forbidden, message@),
{
    error_response(req, Status::Forbidden, message)
}

/// The answer to a request that failed inside the handler.
pub fn internal_error(req: &Request, message: &str) -> (r: Response)
    ensures
        r.is_error_for(req, Status::InternalServerError, message@),
{
    error_response(req, Status::InternalServerError, message)
}

/// The answer to a request that did not come over a channel that proved its
/// sender's identity.
pub fn secure_channel_required(req: &Request) -> (r: Response)
    ensures
        r.is_error_for(req, Status::Forbidden, "secure channel required"@),
{
    forbidden(req, "secure channel required")
}

} // verus!
