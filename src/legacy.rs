use vstd::prelude::*;
use crate::api::{is_post_to, Request};

verus! {

/// Address of the token issuer.
pub const ENROLLMENT_TOKEN_ISSUER: &'static str = "enrollment_token_issuer";

/// Address of the direct authenticator.
pub const DIRECT_AUTHENTICATOR: &'static str = "direct_authenticator";

/// Address of the token acceptor.
pub const ENROLLMENT_TOKEN_ACCEPTOR: &'static str = "enrollment_token_acceptor";

/// Address of the credential issuer.
pub const CREDENTIAL_ISSUER: &'static str = "credential_issuer";

/// How long the relay waits between redeeming a code and asking for the
/// credential, in milliseconds.
pub const CREDENTIAL_DELAY_MS: u64 = 2000;

/// A message in transit: where it goes next, how replies come back, and
/// what it carries.
#[derive(Debug)]
pub struct Envelope {
    /// Hops still to visit, next hop first.
    pub onward_route: Vec<String>,
    /// Hops that carry a reply back, next hop first.
    pub return_route: Vec<String>,
    pub payload: Vec<u8>,
}

/// A route as the verifier sees it.
pub open spec fn route_view(r: Seq<String>) -> Seq<Seq<char>> {
    r.map_values(|h: String| h@)
}

/// What the relay asks its host to do, in order.
#[derive(Debug)]
pub enum BridgeAction {
    /// Send the envelope on to the first hop of its onward route.
    Forward(Envelope),
    /// Wait this many milliseconds before the next action.
    Wait(u64),
}

/// Why the relay could not handle a message.
#[derive(PartialEq, Eq, Structural, Clone, Copy, Debug)]
pub enum BridgeError {
    /// The onward route did not even hold the relay's own address.
    EmptyRoute,
}

/// `a` forwards an envelope with these routes and payload.
pub open spec fn forwards(a: BridgeAction, onward: Seq<Seq<char>>, ret: Seq<Seq<char>>, payload: Seq<u8>) -> bool {
    match a {
        BridgeAction::Forward(e) => {
            &&& route_view(e.onward_route@) == onward
            &&& route_view(e.return_route@) == ret
            &&& e.payload@ == payload
        },
        _ => false,
    }
}

/// `acts` forwards the message, its own hop stepped past, to `hop`, and
/// does nothing else.
pub open spec fn redirects(acts: Seq<BridgeAction>, msg: Envelope, hop: Seq<char>) -> bool {
    &&& acts.len() == 1
    &&& forwards(acts[0], route_view(msg.onward_route@).drop_first().push(hop), route_view(msg.return_route@), msg.payload@)
}

/// The two-phase redemption: the message goes to the token acceptor with
/// replies coming back to the relay; after the delay a fresh credential
/// request, carried as `credential_request`, goes to the credential issuer
/// with replies going straight back to the client.
pub open spec fn redeems_then_requests(
    acts: Seq<BridgeAction>,
    msg: Envelope,
    own_address: Seq<char>,
    credential_request: Seq<u8>,
) -> bool {
    &&& acts.len() == 3
    &&& forwards(
        acts[0],
        route_view(msg.onward_route@).drop_first().push(ENROLLMENT_TOKEN_ACCEPTOR@),
        seq![own_address] + route_view(msg.return_route@),
        msg.payload@,
    )
    &&& acts[1] == BridgeAction::Wait(CREDENTIAL_DELAY_MS)
    &&& forwards(
        acts[2],
        route_view(msg.onward_route@).push(CREDENTIAL_ISSUER@),
        route_view(msg.return_route@),
        credential_request,
    )
}

/// A copy of a route.
fn copy_route(r: &Vec<String>) -> (c: Vec<String>)
    ensures
        c@ == r@,
{
    let mut c: Vec<String> = Vec::new();
    let mut i: usize = 0;
    while i < r.len()
        invariant
            i <= r.len(),
            c@ == r@.subrange(0, i as int),
        decreases r.len() - i,
    {
        c.push(r[i].clone());
        assert(c@ =~= r@.subrange(0, i + 1));
        i = i + 1;
    }
    assert(r@.subrange(0, i as int) =~= r@);
    c
}

/// Rewrites requests of older clients, which address a single endpoint, for
/// the split handlers. It holds no state of its own.
#[derive(Debug)]
pub struct LegacyApiConverter {}

impl LegacyApiConverter {
    pub fn new() -> (r: LegacyApiConverter)
        ensures
            r == (LegacyApiConverter {}),
    {
        LegacyApiConverter {}
    }

    /// Handles `msg`, which arrived with the relay's own address
    /// `own_address` first on its onward route. `req` is its payload decoded
    /// as a request, `None` where it is not one (a reply to an earlier
    /// redemption, or garbage: either is dropped). `credential_request` is a
    /// fresh encoded `POST /credential` request without a body.
    pub fn handle_message(
        &self,
        own_address: &String,
        msg: Envelope,
        req: Option<Request>,
        credential_request: Vec<u8>,
    ) -> (r: Result<Vec<BridgeAction>, BridgeError>)
        ensures
            r is Err <==> msg.onward_route@.len() == 0,
            r matches Err(e) ==> e == BridgeError::EmptyRoute,
            r matches Ok(acts) ==> match req {
                None => acts@.len() == 0,
                Some(q) => if q.is_post_to("/tokens"@) {
                    redirects(acts@, msg, ENROLLMENT_TOKEN_ISSUER@)
                } else if q.is_post_to("/members"@) {
                    redirects(acts@, msg, DIRECT_AUTHENTICATOR@)
                } else if q.is_post_to("/credential"@) && q.has_body {
                    redeems_then_requests(acts@, msg, own_address@, credential_request@)
                } else if q.is_post_to("/credential"@) {
                    redirects(acts@, msg, CREDENTIAL_ISSUER@)
                } else {
                    acts@.len() == 0
                },
            },
    {
        if msg.onward_route.len() == 0 {
            return Err(BridgeError::EmptyRoute);
        }
        let ghost orig_onward = msg.onward_route@;
        let ghost orig_return = msg.return_route@;
        let second_onward = copy_route(&msg.onward_route);
        let second_return = copy_route(&msg.return_route);
        let mut onward = msg.onward_route;
        let mut ret = msg.return_route;
        let payload = msg.payload;
        onward.remove(0);
        assert(route_view(onward@) =~= route_view(orig_onward).drop_first());
        let mut acts: Vec<BridgeAction> = Vec::new();
        match req {
            None => {},
            Some(q) => {
                if is_post_to(&q, "/tokens") {
                    onward.push(ENROLLMENT_TOKEN_ISSUER.to_owned());
                    acts.push(BridgeAction::Forward(Envelope { onward_route: onward, return_route: ret, payload }));
                } else if is_post_to(&q, "/members") {
                    onward.push(DIRECT_AUTHENTICATOR.to_owned());
                    acts.push(BridgeAction::Forward(Envelope { onward_route: onward, return_route: ret, payload }));
                } else if is_post_to(&q, "/credential") && q.has_body {
                    onward.push(ENROLLMENT_TOKEN_ACCEPTOR.to_owned());
                    ret.insert(0, own_address.clone());
                    acts.push(BridgeAction::Forward(Envelope { onward_route: onward, return_route: ret, payload }));
                    acts.push(BridgeAction::Wait(CREDENTIAL_DELAY_MS));
                    let mut second = second_onward;
                    second.push(CREDENTIAL_ISSUER.to_owned());
                    acts.push(
                        BridgeAction::Forward(
                            Envelope { onward_route: second, return_route: second_return, payload: credential_request },
                        ),
                    );
                } else if is_post_to(&q, "/credential") {
                    onward.push(CREDENTIAL_ISSUER.to_owned());
                    acts.push(BridgeAction::Forward(Envelope { onward_route: onward, return_route: ret, payload }));
                }
            },
        }
        proof {
            if acts@.len() > 0 {
                if let BridgeAction::Forward(e) = acts@[0] {
                    assert(route_view(e.onward_route@) =~= route_view(orig_onward).drop_first().push(route_view(e.onward_route@).last()));
                    assert(route_view(e.return_route@) =~= route_view(orig_return)
                        || route_view(e.return_route@) =~= seq![own_address@] + route_view(orig_return));
                }
            }
            if acts@.len() == 3 {
                if let BridgeAction::Forward(e) = acts@[2] {
                    assert(route_view(e.onward_route@) =~= route_view(orig_onward).push(CREDENTIAL_ISSUER@));
                    assert(route_view(e.return_route@) =~= route_view(orig_return));
                }
            }
        }
        Ok(acts)
    }
}

impl Default for LegacyApiConverter {
    fn default() -> (r: LegacyApiConverter)
        ensures
            r == (LegacyApiConverter {}),
    {
        LegacyApiConverter::new()
    }
}

/// A `POST /tokens` that reaches the relay with onward route
/// `[relay, next]` leaves it with onward route `[next, enrollment_token_issuer]`
/// (the issuer's hop is appended), return route and payload unchanged.
pub proof fn law_tokens_request_redirected(
    acts: Seq<BridgeAction>,
    msg: Envelope,
    own_address: Seq<char>,
    next: Seq<char>,
)
    requires
        route_view(msg.onward_route@) == seq![own_address, next],
        redirects(acts, msg, ENROLLMENT_TOKEN_ISSUER@),
    ensures
        forwards(acts[0], seq![next, ENROLLMENT_TOKEN_ISSUER@], route_view(msg.return_route@), msg.payload@),
{
    assert(route_view(msg.onward_route@).drop_first().push(ENROLLMENT_TOKEN_ISSUER@) =~= seq![
        next,
        ENROLLMENT_TOKEN_ISSUER@,
    ]);
}

/// Since the issuer's hop is appended, a `POST /tokens` arriving with onward
/// route `[relay, next]` leaves with onward route
/// `[enrollment_token_issuer, next]` exactly when `next` is itself the
/// issuer's address.
pub proof fn law_tokens_request_issuer_first(
    acts: Seq<BridgeAction>,
    msg: Envelope,
    own_address: Seq<char>,
    next: Seq<char>,
)
    requires
        route_view(msg.onward_route@) == seq![own_address, next],
        redirects(acts, msg, ENROLLMENT_TOKEN_ISSUER@),
    ensures
        forwards(acts[0], seq![ENROLLMENT_TOKEN_ISSUER@, next], route_view(msg.return_route@), msg.payload@)
            <==> next == ENROLLMENT_TOKEN_ISSUER@,
{
    law_tokens_request_redirected(acts, msg, own_address, next);
    if forwards(acts[0], seq![ENROLLMENT_TOKEN_ISSUER@, next], route_view(msg.return_route@), msg.payload@) {
        assert(seq![next, ENROLLMENT_TOKEN_ISSUER@][0] == seq![ENROLLMENT_TOKEN_ISSUER@, next][0]);
    }
    if next == ENROLLMENT_TOKEN_ISSUER@ {
        assert(seq![next, ENROLLMENT_TOKEN_ISSUER@] =~= seq![ENROLLMENT_TOKEN_ISSUER@, next]);
    }
}

} // verus!
