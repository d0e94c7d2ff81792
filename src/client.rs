use vstd::prelude::*;
use crate::api::{Method, Request};
use crate::authenticators::{AddMember, CreateToken};
use crate::token_store::Code;

verus! {

/// A `POST /` request header with a body, under id `id`.
fn post_root(id: u32) -> (r: Request)
    ensures
        r.id == id,
        r.is_post_to("/"@),
        r.has_body,
{
    Request { id, method: Some(Method::Post), path: "/".to_owned(), has_body: true }
}

/// A copy of a route or of (name, value) pairs.
fn copy_strings(v: &Vec<String>) -> (r: Vec<String>)
    ensures
        r@ == v@,
{
    let mut r: Vec<String> = Vec::new();
    let mut i: usize = 0;
    while i < v.len()
        invariant
            i <= v.len(),
            r@ == v@.subrange(0, i as int),
        decreases v.len() - i,
    {
        r.push(v[i].clone());
        assert(r@ =~= v@.subrange(0, i + 1));
        i = i + 1;
    }
    assert(v@.subrange(0, i as int) =~= v@);
    r
}

/// Builds the requests an enroller sends to a direct authenticator reached
/// over `route`.
#[derive(Debug)]
pub struct DirectAuthenticatorClient {
    route: Vec<String>,
}

impl DirectAuthenticatorClient {
    pub closed spec fn route_spec(&self) -> Seq<String> {
        self.route@
    }

    pub fn new(route: Vec<String>) -> (r: DirectAuthenticatorClient)
        ensures
            r.route_spec() == route@,
    {
        DirectAuthenticatorClient { route }
    }

    /// The route to the authenticator.
    pub fn route(&self) -> (r: Vec<String>)
        ensures
            r@ == self.route_spec(),
    {
        copy_strings(&self.route)
    }

    /// The request, under id `request_id`, that makes `id` a member with
    /// `attributes`.
    pub fn add_member(&self, request_id: u32, id: String, attributes: Vec<(String, String)>) -> (r: (Request, AddMember))
        ensures
            r.0.id == request_id,
            r.0.is_post_to("/"@),
            r.0.has_body,
            r.1.member == id,
            r.1.attributes == attributes,
    {
        (post_root(request_id), AddMember { member: id, attributes })
    }
}

/// Builds the requests an enroller sends to a token issuer reached over
/// `route`.
#[derive(Debug)]
pub struct TokenIssuerClient {
    route: Vec<String>,
}

impl TokenIssuerClient {
    pub closed spec fn route_spec(&self) -> Seq<String> {
        self.route@
    }

    pub fn new(route: Vec<String>) -> (r: TokenIssuerClient)
        ensures
            r.route_spec() == route@,
    {
        TokenIssuerClient { route }
    }

    /// The route to the issuer.
    pub fn route(&self) -> (r: Vec<String>)
        ensures
            r@ == self.route_spec(),
    {
        copy_strings(&self.route)
    }

    /// The request, under id `request_id`, for a code carrying `attributes`.
    pub fn create_token(&self, request_id: u32, attributes: Vec<(String, String)>) -> (r: (Request, CreateToken))
        ensures
            r.0.id == request_id,
            r.0.is_post_to("/"@),
            r.0.has_body,
            r.1.attributes == attributes,
    {
        (post_root(request_id), CreateToken { attributes })
    }
}

/// Builds the requests a newcomer sends to a token acceptor reached over
/// `route`.
#[derive(Debug)]
pub struct TokenAcceptorClient {
    route: Vec<String>,
}

impl TokenAcceptorClient {
    pub closed spec fn route_spec(&self) -> Seq<String> {
        self.route@
    }

    pub fn new(route: Vec<String>) -> (r: TokenAcceptorClient)
        ensures
            r.route_spec() == route@,
    {
        TokenAcceptorClient { route }
    }

    /// The route to the acceptor.
    pub fn route(&self) -> (r: Vec<String>)
        ensures
            r@ == self.route_spec(),
    {
        copy_strings(&self.route)
    }

    /// The request, under id `request_id`, that presents code `c`.
    pub fn present_token(&self, request_id: u32, c: &Code) -> (r: (Request, Code))
        ensures
            r.0.id == request_id,
            r.0.is_post_to("/"@),
            r.0.has_body,
            r.1 == *c,
    {
        (post_root(request_id), *c)
    }
}

} // verus!
