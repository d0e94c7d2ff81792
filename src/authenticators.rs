use vstd::prelude::*;
use crate::api::{
    internal_error, is_post_to, ok, ok_with_body, secure_channel_required, forbidden,
    unknown_path, Request, Response, Status,
};
use crate::attributes::{
    grant_attributes, grants, lemma_granted_attributes, pairs_to_map, pairs_view, AttributesEntry,
    AttributesWrite, IdentityIdentifier, LEGACY_ID, TRUST_CONTEXT_ID,
};
use crate::token_store::{
    has_key, key_index, keys_unique, lru_lookup, lru_put, lru_remove, Code, Token, TokenStore,
    TOKEN_CAPACITY,
};

verus! {

/// How long an enrollment token stays redeemable, in milliseconds.
pub const MAX_TOKEN_DURATION_MS: u64 = 600000;

/// What a handler asks its host to do with an inbound request.
#[derive(Debug)]
pub enum Outcome {
    /// Send the response back along the return route.
    Reply(Response),
    /// Write the attributes to the attribute store, then send the response
    /// back; a failed write fails the request and nothing is sent.
    Grant(AttributesWrite, Response),
    /// The request body did not decode: the message is dropped and nothing is
    /// sent back.
    Malformed,
}

/// The body of a direct enrollment request.
#[derive(Debug)]
pub struct AddMember {
    pub member: IdentityIdentifier,
    pub attributes: Vec<(String, String)>,
}

/// The body of a token creation request.
#[derive(Debug)]
pub struct CreateToken {
    pub attributes: Vec<(String, String)>,
}

/// `r` is the reply `resp` to `req`, failed with `status` and `message`.
pub open spec fn replies_error(r: Outcome, req: &Request, status: Status, message: Seq<char>) -> bool {
    r matches Outcome::Reply(resp) && resp.is_error_for(req, status, message)
}

/// `r` is a successful reply to `req` carrying `code`.
pub open spec fn replies_code(r: Outcome, req: &Request, code: Code) -> bool {
    match r {
        Outcome::Reply(resp) => {
            &&& resp.re == req.id
            &&& resp.status == Status::Success
            &&& resp.error is None
            &&& resp.body matches Some(v) && v@ == code@
        },
        _ => false,
    }
}

/// Grants attributes to identities on the word of an enroller who proved
/// their own identity.
#[derive(Debug)]
pub struct DirectAuthenticator {
    trust_context: String,
}

impl DirectAuthenticator {
    /// The authority on whose behalf attributes are granted.
    pub closed spec fn trust_context(&self) -> Seq<char> {
        self.trust_context@
    }

    pub fn new(trust_context: String) -> (r: DirectAuthenticator)
        ensures
            r.trust_context() == trust_context@,
    {
        DirectAuthenticator { trust_context }
    }

    /// The write that makes `id` a member with `attrs`, vouched for by
    /// `enroller`, at `now` (seconds since the Unix epoch).
    pub fn add_member(
        &self,
        enroller: &IdentityIdentifier,
        id: &IdentityIdentifier,
        attrs: &Vec<(String, String)>,
        now: u64,
    ) -> (r: AttributesWrite)
        ensures
            grants(r, id@, pairs_view(attrs@), self.trust_context(), now, enroller@),
    {
        let entry = AttributesEntry {
            attrs: grant_attributes(attrs, &self.trust_context),
            added: now,
            expires: None,
            attested_by: Some(enroller.clone()),
        };
        AttributesWrite { identity: id.clone(), entry }
    }

    /// Handles a request that arrived from `from` (`None` where the channel
    /// proved no identity). `body` is the decoded `AddMember` body, `None`
    /// where it did not decode.
    pub fn handle_message(
        &self,
        from: Option<IdentityIdentifier>,
        req: &Request,
        body: Option<AddMember>,
        now: u64,
    ) -> (r: Outcome)
        ensures
            from is None ==> replies_error(r, req, Status::Forbidden, "secure channel required"@),
            from matches Some(f) ==> if req.is_post_to("/"@) || req.is_post_to("/members"@) {
                match body {
                    None => r is Malformed,
                    Some(b) => r matches Outcome::Grant(w, resp) && resp.is_ok_for(req)
                        && grants(w, b.member@, pairs_view(b.attributes@), self.trust_context(), now, f@),
                }
            } else {
                replies_error(r, req, Status::BadRequest, "unknown path"@)
            },
    {
        match from {
            None => Outcome::Reply(secure_channel_required(req)),
            Some(f) => {
                if is_post_to(req, "/") || is_post_to(req, "/members") {
                    match body {
                        None => Outcome::Malformed,
                        Some(b) => {
                            let w = self.add_member(&f, &b.member, &b.attributes, now);
                            Outcome::Grant(w, ok(req))
                        },
                    }
                } else {
                    Outcome::Reply(unknown_path(req))
                }
            },
        }
    }
}

/// Whether a token made at `created_ms` has lapsed at `now_ms` (both
/// monotonic milliseconds): more than `MAX_TOKEN_DURATION_MS` has gone by.
pub open spec fn is_expired(created_ms: u64, now_ms: u64) -> bool {
    now_ms > created_ms + MAX_TOKEN_DURATION_MS
}

/// Why a code was not honoured. Either way the code is gone.
#[derive(PartialEq, Eq, Structural, Clone, Copy, Debug)]
pub enum RedeemError {
    /// No token is outstanding under the code.
    UnknownToken,
    /// The token lapsed before it was presented.
    ExpiredToken,
}

/// The state shared by the token issuer and the token acceptor.
#[derive(Debug)]
pub struct EnrollmentTokenAuthenticator {
    trust_context: String,
}

/// Mints one-time enrollment codes for enrollers who proved their identity.
#[derive(Debug)]
pub struct EnrollmentTokenIssuer(EnrollmentTokenAuthenticator);

/// Redeems one-time enrollment codes for the identity that presents them.
#[derive(Debug)]
pub struct EnrollmentTokenAcceptor(EnrollmentTokenAuthenticator);

impl EnrollmentTokenAuthenticator {
    /// An issuer and an acceptor for the authority of `trust_context`. They
    /// share one `TokenStore`, which their host keeps under a lock.
    pub fn new_worker_pair(trust_context: String) -> (r: (EnrollmentTokenIssuer, EnrollmentTokenAcceptor))
        ensures
            r.0.trust_context() == trust_context@,
            r.1.trust_context() == trust_context@,
    {
        let issuer = EnrollmentTokenIssuer(EnrollmentTokenAuthenticator { trust_context: trust_context.clone() });
        (issuer, EnrollmentTokenAcceptor(EnrollmentTokenAuthenticator { trust_context }))
    }
}

/// The token stored for a code issued by `enroller` with `attrs` at `now_ms`.
pub open spec fn token_of(t: Token, enroller: Seq<char>, attrs: Seq<(String, String)>, now_ms: u64) -> bool {
    &&& t.attrs@ == attrs
    &&& t.generated_by@ == enroller
    &&& t.created_at_ms == now_ms
}

/// The bytes of a code.
fn code_bytes(code: &Code) -> (r: Vec<u8>)
    ensures
        r@ == code@,
{
    let mut r: Vec<u8> = Vec::new();
    let mut i: usize = 0;
    while i < 32
        invariant
            i <= 32,
            r@ == code@.subrange(0, i as int),
        decreases 32 - i,
    {
        r.push(code[i]);
        assert(r@ =~= code@.subrange(0, i + 1));
        i = i + 1;
    }
    assert(code@.subrange(0, 32) =~= code@);
    r
}

impl EnrollmentTokenIssuer {
    /// The authority on whose behalf tokens are minted.
    pub closed spec fn trust_context(&self) -> Seq<char> {
        self.0.trust_context@
    }

    /// Stores a token for `code`, a fresh random code, carrying `attrs` and
    /// issued by `enroller` at `now_ms` (monotonic milliseconds); returns the
    /// code.
    pub fn issue_token(
        &self,
        tokens: &mut TokenStore,
        enroller: &IdentityIdentifier,
        attrs: Vec<(String, String)>,
        code: Code,
        now_ms: u64,
    ) -> (r: Code)
        requires
            old(tokens).wf(),
        ensures
            r == code,
            final(tokens).wf(),
            exists|t: Token| #[trigger] token_of(t, enroller@, attrs@, now_ms)
                && final(tokens).entries() == lru_put(old(tokens).entries(), code, t, TOKEN_CAPACITY as nat),
    {
        let tkn = Token { attrs, generated_by: enroller.clone(), created_at_ms: now_ms };
        assert(token_of(tkn, enroller@, attrs@, now_ms));
        tokens.put(code, tkn);
        code
    }

    /// Handles a request that arrived from `from` (`None` where the channel
    /// proved no identity). `tokens` is the shared store, `None` where its
    /// lock could not be had. `body` is the decoded `CreateToken` body, `None`
    /// where it did not decode; `code` is a fresh random code, used if a token
    /// is minted.
    pub fn handle_message(
        &self,
        tokens: Option<&mut TokenStore>,
        from: Option<IdentityIdentifier>,
        req: &Request,
        body: Option<CreateToken>,
        code: Code,
        now_ms: u64,
    ) -> (r: Outcome)
        requires
            tokens matches Some(t) ==> t.wf(),
        ensures
            tokens matches Some(t) ==> final(t).wf(),
            from is None ==> replies_error(r, req, Status::Forbidden, "secure channel required"@),
            from matches Some(f) ==> if req.is_post_to("/"@) || req.is_post_to("/tokens"@) {
                match body {
                    None => r is Malformed,
                    Some(b) => match tokens {
                        None => replies_error(r, req, Status::InternalServerError, "failed to get read lock on tokens table"@),
                        Some(t) => replies_code(r, req, code)
                            && exists|k: Token| #[trigger] token_of(k, f@, b.attributes@, now_ms)
                                && final(t).entries() == lru_put(t.entries(), code, k, TOKEN_CAPACITY as nat),
                    },
                }
            } else {
                replies_error(r, req, Status::BadRequest, "unknown path"@)
            },
            !(from is Some && (req.is_post_to("/"@) || req.is_post_to("/tokens"@)) && body is Some)
                ==> (tokens matches Some(t) ==> *final(t) == *t),
    {
        match from {
            None => Outcome::Reply(secure_channel_required(req)),
            Some(f) => {
                if is_post_to(req, "/") || is_post_to(req, "/tokens") {
                    match body {
                        None => Outcome::Malformed,
                        Some(b) => match tokens {
                            None => Outcome::Reply(internal_error(req, "failed to get read lock on tokens table")),
                            Some(t) => {
                                let c = self.issue_token(t, &f, b.attributes, code, now_ms);
                                Outcome::Reply(ok_with_body(req, code_bytes(&c)))
                            },
                        },
                    }
                } else {
                    Outcome::Reply(unknown_path(req))
                }
            },
        }
    }
}

/// What redeeming `code` at `now_ms` by `presenter` yields, given the token
/// that was stored under it (if any), with `now` the time of the grant in
/// seconds since the Unix epoch.
pub open spec fn redeem_result(
    r: Result<AttributesWrite, RedeemError>,
    stored: Option<Token>,
    presenter: Seq<char>,
    trust_context: Seq<char>,
    now_ms: u64,
    now: u64,
) -> bool {
    match stored {
        None => r == Err::<AttributesWrite, RedeemError>(RedeemError::UnknownToken),
        Some(t) => if is_expired(t.created_at_ms, now_ms) {
            r == Err::<AttributesWrite, RedeemError>(RedeemError::ExpiredToken)
        } else {
            r matches Ok(w) && grants(w, presenter, pairs_view(t.attrs@), trust_context, now, t.generated_by@)
        },
    }
}

impl EnrollmentTokenAcceptor {
    /// The authority on whose behalf codes are redeemed.
    pub closed spec fn trust_context(&self) -> Seq<char> {
        self.0.trust_context@
    }

    /// Redeems `code` for `presenter`: the token under it is removed whatever
    /// happens next. A token older than `MAX_TOKEN_DURATION_MS` at `now_ms`
    /// (monotonic milliseconds) is refused; otherwise its attributes, with the
    /// two synthetic ones, are granted to `presenter` at `now` (seconds since
    /// the Unix epoch), vouched for by the token's issuer.
    pub fn redeem(
        &self,
        tokens: &mut TokenStore,
        code: &Code,
        presenter: &IdentityIdentifier,
        now_ms: u64,
        now: u64,
    ) -> (r: Result<AttributesWrite, RedeemError>)
        requires
            old(tokens).wf(),
        ensures
            final(tokens).wf(),
            final(tokens).entries() == lru_remove(old(tokens).entries(), *code),
            !final(tokens).contains(*code),
            redeem_result(r, lru_lookup(old(tokens).entries(), *code), presenter@, self.trust_context(), now_ms, now),
    {
        match tokens.pop(code) {
            None => Err(RedeemError::UnknownToken),
            Some(tkn) => {
                let elapsed = if now_ms >= tkn.created_at_ms { now_ms - tkn.created_at_ms } else { 0 };
                if elapsed > MAX_TOKEN_DURATION_MS {
                    Err(RedeemError::ExpiredToken)
                } else {
                    let entry = AttributesEntry {
                        attrs: grant_attributes(&tkn.attrs, &self.0.trust_context),
                        added: now,
                        expires: None,
                        attested_by: Some(tkn.generated_by),
                    };
                    Ok(AttributesWrite { identity: presenter.clone(), entry })
                }
            },
        }
    }

    /// Handles a request that arrived from `from` (`None` where the channel
    /// proved no identity). `tokens` is the shared store, `None` where its
    /// lock could not be had. `body` is the decoded code, `None` where it did
    /// not decode.
    pub fn handle_message(
        &self,
        tokens: Option<&mut TokenStore>,
        from: Option<IdentityIdentifier>,
        req: &Request,
        body: Option<Code>,
        now_ms: u64,
        now: u64,
    ) -> (r: Outcome)
        requires
            tokens matches Some(t) ==> t.wf(),
        ensures
            tokens matches Some(t) ==> final(t).wf(),
            from is None ==> replies_error(r, req, Status::Forbidden, "secure channel required"@),
            from matches Some(f) ==> if req.is_post_to("/"@) || req.is_post_to("/credential"@) {
                match body {
                    None => r is Malformed,
                    Some(c) => match tokens {
                        None => replies_error(r, req, Status::InternalServerError, "Failed to get read lock on tokens table"@),
                        Some(t) => final(t).entries() == lru_remove(t.entries(), c)
                            && accept_reply(r, req, lru_lookup(t.entries(), c), f@, self.trust_context(), now_ms, now),
                    },
                }
            } else {
                replies_error(r, req, Status::BadRequest, "unknown path"@)
            },
            !(from is Some && (req.is_post_to("/"@) || req.is_post_to("/credential"@)) && body is Some)
                ==> (tokens matches Some(t) ==> *final(t) == *t),
    {
        match from {
            None => Outcome::Reply(secure_channel_required(req)),
            Some(f) => {
                if is_post_to(req, "/") || is_post_to(req, "/credential") {
                    match body {
                        None => Outcome::Malformed,
                        Some(c) => match tokens {
                            None => Outcome::Reply(internal_error(req, "Failed to get read lock on tokens table")),
                            Some(t) => match self.redeem(t, &c, &f, now_ms, now) {
                                Ok(w) => Outcome::Grant(w, ok(req)),
                                Err(RedeemError::UnknownToken) => Outcome::Reply(forbidden(req, "unknown token")),
                                Err(RedeemError::ExpiredToken) => Outcome::Reply(forbidden(req, "expired token")),
                            },
                        },
                    }
                } else {
                    Outcome::Reply(unknown_path(req))
                }
            },
        }
    }
}

/// The acceptor's answer to `req` given the token that was stored under the
/// presented code (if any).
pub open spec fn accept_reply(
    r: Outcome,
    req: &Request,
    stored: Option<Token>,
    presenter: Seq<char>,
    trust_context: Seq<char>,
    now_ms: u64,
    now: u64,
) -> bool {
    match stored {
        None => replies_error(r, req, Status::Forbidden, "unknown token"@),
        Some(t) => if is_expired(t.created_at_ms, now_ms) {
            replies_error(r, req, Status::Forbidden, "expired token"@)
        } else {
            match r {
                Outcome::Grant(w, resp) => resp.is_ok_for(req)
                    && grants(w, presenter, pairs_view(t.attrs@), trust_context, now, t.generated_by@),
                _ => false,
            }
        },
    }
}

/// The token under `code` after the entries `s` took `(code, t)`.
proof fn lemma_put_then_lookup(s: Seq<(Code, Token)>, code: Code, t: Token, cap: nat)
    requires
        keys_unique(s),
        s.len() <= cap,
        cap > 0,
    ensures
        lru_lookup(lru_put(s, code, t, cap), code) == Some(t),
{
    let n = lru_put(s, code, t, cap);
    let last = n.len() - 1;
    assert(n[last] == (code, t));
    assert(n[last].0 == code);
    assert(has_key(n, code));
    let j = key_index(n, code);
    if j != last {
        // only the new entry carries `code`
        if has_key(s, code) {
            let i = key_index(s, code);
            let r = s.remove(i);
            assert(n[j] == r[j]);
            let j2 = if j < i { j } else { j + 1 };
            assert(r[j] == s[j2]);
        } else if s.len() >= cap {
            assert(n[j] == s[j + 1]);
        } else {
            assert(n[j] == s[j]);
        }
    }
}

/// A code that was popped is not found again.
proof fn lemma_remove_then_lookup(s: Seq<(Code, Token)>, code: Code)
    requires
        keys_unique(s),
    ensures
        lru_lookup(lru_remove(s, code), code) is None,
{
    if has_key(s, code) {
        let i = key_index(s, code);
        let r = s.remove(i);
        if has_key(r, code) {
            let j = key_index(r, code);
            let j2 = if j < i { j } else { j + 1 };
            assert(r[j] == s[j2]);
        }
    }
}

/// A token just issued and redeemed before it lapses grants the presenter
/// the token's attributes, with `legacy_id` and `trust_context_id` both set to
/// the trust context, vouched for by the token's issuer.
pub proof fn law_issue_then_redeem(
    before: Seq<(Code, Token)>,
    code: Code,
    t: Token,
    r: Result<AttributesWrite, RedeemError>,
    presenter: Seq<char>,
    trust_context: Seq<char>,
    now_ms: u64,
    now: u64,
)
    requires
        keys_unique(before),
        before.len() <= TOKEN_CAPACITY,
        !is_expired(t.created_at_ms, now_ms),
        redeem_result(
            r,
            lru_lookup(lru_put(before, code, t, TOKEN_CAPACITY as nat), code),
            presenter,
            trust_context,
            now_ms,
            now,
        ),
    ensures
        r matches Ok(w) && {
            &&& w.identity@ == presenter
            &&& w.entry.attested_by matches Some(a) && a@ == t.generated_by@
            &&& w.entry.attributes() == pairs_to_map(pairs_view(t.attrs@)).insert(LEGACY_ID@, trust_context).insert(
                TRUST_CONTEXT_ID@,
                trust_context,
            )
        },
{
    lemma_put_then_lookup(before, code, t, TOKEN_CAPACITY as nat);
    lemma_granted_attributes(pairs_view(t.attrs@), trust_context);
}

/// Once a code has been presented, presenting it again finds no token.
pub proof fn law_second_redemption_unknown(
    s: Seq<(Code, Token)>,
    code: Code,
    r: Result<AttributesWrite, RedeemError>,
    presenter: Seq<char>,
    trust_context: Seq<char>,
    now_ms: u64,
    now: u64,
)
    requires
        keys_unique(s),
        redeem_result(r, lru_lookup(lru_remove(s, code), code), presenter, trust_context, now_ms, now),
    ensures
        r == Err::<AttributesWrite, RedeemError>(RedeemError::UnknownToken),
{
    lemma_remove_then_lookup(s, code);
}

/// A token presented more than ten minutes after issuance is refused as
/// expired, and the code is then unknown to any later attempt.
pub proof fn law_expired_then_unknown(
    s: Seq<(Code, Token)>,
    code: Code,
    first: Result<AttributesWrite, RedeemError>,
    later: Result<AttributesWrite, RedeemError>,
    presenter: Seq<char>,
    trust_context: Seq<char>,
    now_ms: u64,
    later_ms: u64,
    now: u64,
)
    requires
        keys_unique(s),
        lru_lookup(s, code) matches Some(t) && now_ms > t.created_at_ms + MAX_TOKEN_DURATION_MS,
        redeem_result(first, lru_lookup(s, code), presenter, trust_context, now_ms, now),
        redeem_result(later, lru_lookup(lru_remove(s, code), code), presenter, trust_context, later_ms, now),
    ensures
        first == Err::<AttributesWrite, RedeemError>(RedeemError::ExpiredToken),
        later == Err::<AttributesWrite, RedeemError>(RedeemError::UnknownToken),
{
    lemma_remove_then_lookup(s, code);
}

/// With the store full, a token under a new code evicts exactly the least
/// recently used token, whose code is then unknown.
pub proof fn law_full_store_evicts_lru(
    s: Seq<(Code, Token)>,
    code: Code,
    t: Token,
    r: Result<AttributesWrite, RedeemError>,
    presenter: Seq<char>,
    trust_context: Seq<char>,
    now_ms: u64,
    now: u64,
)
    requires
        keys_unique(s),
        s.len() == TOKEN_CAPACITY,
        !has_key(s, code),
        redeem_result(
            r,
            lru_lookup(lru_put(s, code, t, TOKEN_CAPACITY as nat), s[0].0),
            presenter,
            trust_context,
            now_ms,
            now,
        ),
    ensures
        lru_put(s, code, t, TOKEN_CAPACITY as nat) == s.drop_first().push((code, t)),
        !has_key(lru_put(s, code, t, TOKEN_CAPACITY as nat), s[0].0),
        forall|i: int| 1 <= i < s.len() ==> has_key(lru_put(s, code, t, TOKEN_CAPACITY as nat), #[trigger] s[i].0),
        r == Err::<AttributesWrite, RedeemError>(RedeemError::UnknownToken),
{
    let n = lru_put(s, code, t, TOKEN_CAPACITY as nat);
    let k = s[0].0;
    if has_key(n, k) {
        let j = key_index(n, k);
        if j < n.len() - 1 {
            assert(n[j] == s[j + 1]);
        } else {
            assert(s[0].0 == code);
        }
    }
    assert forall|i: int| 1 <= i < s.len() implies has_key(n, #[trigger] s[i].0) by {
        assert(n[i - 1] == s[i]);
    }
}

} // verus!
