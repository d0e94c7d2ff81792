use ockam_authority::api::{Method, Request, Response, Status};
use ockam_authority::attributes::{grant_attributes, AttributesWrite};
use ockam_authority::authenticators::{
    AddMember, CreateToken, DirectAuthenticator, EnrollmentTokenAcceptor, EnrollmentTokenAuthenticator,
    EnrollmentTokenIssuer, Outcome, RedeemError, MAX_TOKEN_DURATION_MS,
};
use ockam_authority::token_store::{Code, Token, TokenStore, TOKEN_CAPACITY};

fn pairs(items: &[(&str, &str)]) -> Vec<(String, String)> {
    items.iter().map(|(k, v)| (k.to_string(), v.to_string())).collect()
}

fn post(path: &str, has_body: bool) -> Request {
    Request { id: 7, method: Some(Method::Post), path: path.to_string(), has_body }
}

fn pair() -> (EnrollmentTokenIssuer, EnrollmentTokenAcceptor) {
    EnrollmentTokenAuthenticator::new_worker_pair("project-42".to_string())
}

fn code(n: u8) -> Code {
    [n; 32]
}

fn value_of<'a>(w: &'a AttributesWrite, name: &str) -> Option<&'a str> {
    w.entry.attrs.iter().rev().find(|(k, _)| k == name).map(|(_, v)| v.as_str())
}

fn assert_error(resp: &Response, status: Status, message: &str) {
    assert_eq!(resp.re, 7);
    assert_eq!(resp.status, status);
    assert_eq!(resp.error.as_ref().unwrap().message, message);
}

fn reply(o: Outcome) -> Response {
    match o {
        Outcome::Reply(r) => r,
        other => panic!("expected a reply, got {:?}", other),
    }
}

#[test]
fn issue_then_redeem_grants_token_attributes() {
    let (issuer, acceptor) = pair();
    let mut store = TokenStore::new();
    let c = issuer.issue_token(&mut store, &"Ienroller".to_string(), pairs(&[("role", "member")]), code(1), 1_000);
    assert_eq!(c, code(1));
    let w = acceptor.redeem(&mut store, &c, &"Ipresenter".to_string(), 2_000, 1_700_000_000).unwrap();
    assert_eq!(w.identity, "Ipresenter");
    assert_eq!(w.entry.attested_by.as_deref(), Some("Ienroller"));
    assert_eq!(w.entry.added, 1_700_000_000);
    assert_eq!(w.entry.expires, None);
    assert_eq!(value_of(&w, "role"), Some("member"));
    assert_eq!(value_of(&w, "legacy_id"), Some("project-42"));
    assert_eq!(value_of(&w, "trust_context_id"), Some("project-42"));
}

#[test]
fn redeem_twice_second_is_unknown() {
    let (issuer, acceptor) = pair();
    let mut store = TokenStore::new();
    issuer.issue_token(&mut store, &"Ie".to_string(), pairs(&[]), code(2), 0);
    assert!(acceptor.redeem(&mut store, &code(2), &"Ip".to_string(), 10, 0).is_ok());
    assert_eq!(acceptor.redeem(&mut store, &code(2), &"Ip".to_string(), 20, 0).unwrap_err(), RedeemError::UnknownToken);
}

#[test]
fn expired_token_then_unknown() {
    let (issuer, acceptor) = pair();
    let mut store = TokenStore::new();
    issuer.issue_token(&mut store, &"Ie".to_string(), pairs(&[]), code(3), 5_000);
    let late = 5_000 + 601_000;
    assert_eq!(acceptor.redeem(&mut store, &code(3), &"Ip".to_string(), late, 0).unwrap_err(), RedeemError::ExpiredToken);
    assert_eq!(acceptor.redeem(&mut store, &code(3), &"Ip".to_string(), late, 0).unwrap_err(), RedeemError::UnknownToken);
    assert_eq!(acceptor.redeem(&mut store, &code(3), &"Ip".to_string(), late, 0).unwrap_err(), RedeemError::UnknownToken);
}

#[test]
fn token_redeemable_at_exactly_ten_minutes() {
    let (issuer, acceptor) = pair();
    let mut store = TokenStore::new();
    issuer.issue_token(&mut store, &"Ie".to_string(), pairs(&[]), code(4), 1_000);
    assert!(acceptor.redeem(&mut store, &code(4), &"Ip".to_string(), 1_000 + MAX_TOKEN_DURATION_MS, 0).is_ok());
    issuer.issue_token(&mut store, &"Ie".to_string(), pairs(&[]), code(5), 1_000);
    let r = acceptor.redeem(&mut store, &code(5), &"Ip".to_string(), 1_001 + MAX_TOKEN_DURATION_MS, 0);
    assert_eq!(r.unwrap_err(), RedeemError::ExpiredToken);
}

#[test]
fn clock_going_backwards_is_not_expiry() {
    let (issuer, acceptor) = pair();
    let mut store = TokenStore::new();
    issuer.issue_token(&mut store, &"Ie".to_string(), pairs(&[]), code(6), 9_000_000);
    assert!(acceptor.redeem(&mut store, &code(6), &"Ip".to_string(), 0, 0).is_ok());
}

#[test]
fn full_store_evicts_least_recently_used() {
    let (issuer, acceptor) = pair();
    let mut store = TokenStore::new();
    assert_eq!(TOKEN_CAPACITY, 128);
    for n in 0..128u8 {
        issuer.issue_token(&mut store, &"Ie".to_string(), pairs(&[]), code(n), 0);
    }
    issuer.issue_token(&mut store, &"Ie".to_string(), pairs(&[]), code(200), 0);
    assert_eq!(acceptor.redeem(&mut store, &code(0), &"Ip".to_string(), 0, 0).unwrap_err(), RedeemError::UnknownToken);
    for n in 1..128u8 {
        assert!(acceptor.redeem(&mut store, &code(n), &"Ip".to_string(), 0, 0).is_ok(), "code {n}");
    }
    assert!(acceptor.redeem(&mut store, &code(200), &"Ip".to_string(), 0, 0).is_ok());
}

#[test]
fn reissued_code_becomes_most_recent() {
    let mut store = TokenStore::new();
    let tok = |t: u64| Token { attrs: Vec::new(), generated_by: "Ie".to_string(), created_at_ms: t };
    for n in 0..128u8 {
        store.put(code(n), tok(n as u64));
    }
    store.put(code(0), tok(999));
    store.put(code(200), tok(0));
    assert!(store.pop(&code(1)).is_none());
    assert_eq!(store.pop(&code(0)).unwrap().created_at_ms, 999);
    assert!(store.pop(&code(0)).is_none());
}

#[test]
fn synthetic_attributes_override_requested_ones() {
    let requested = pairs(&[("trust_context_id", "forged"), ("a", "b")]);
    let g = grant_attributes(&requested, &"tc".to_string());
    assert_eq!(g, pairs(&[("trust_context_id", "forged"), ("a", "b"), ("legacy_id", "tc"), ("trust_context_id", "tc")]));
}

#[test]
fn add_member_without_identity_requires_secure_channel() {
    let d = DirectAuthenticator::new("tc".to_string());
    let body = AddMember { member: "Imember".to_string(), attributes: pairs(&[("role", "member")]) };
    let r = reply(d.handle_message(None, &post("/members", true), Some(body), 0));
    assert_error(&r, Status::Forbidden, "secure channel required");
}

#[test]
fn add_member_grants_attributes() {
    let d = DirectAuthenticator::new("tc".to_string());
    let body = AddMember { member: "Imember".to_string(), attributes: pairs(&[("role", "member")]) };
    match d.handle_message(Some("Ienroller".to_string()), &post("/", true), Some(body), 33) {
        Outcome::Grant(w, resp) => {
            assert_eq!(resp.status, Status::Success);
            assert_eq!(resp.re, 7);
            assert_eq!(w.identity, "Imember");
            assert_eq!(w.entry.attested_by.as_deref(), Some("Ienroller"));
            assert_eq!(w.entry.added, 33);
            assert_eq!(w.entry.attrs, pairs(&[("role", "member"), ("legacy_id", "tc"), ("trust_context_id", "tc")]));
        }
        other => panic!("unexpected {:?}", other),
    }
}

#[test]
fn add_member_undecodable_body_is_malformed() {
    let d = DirectAuthenticator::new("tc".to_string());
    assert!(matches!(d.handle_message(Some("Ie".to_string()), &post("/members", true), None, 0), Outcome::Malformed));
}

#[test]
fn unknown_path_on_every_handler() {
    let d = DirectAuthenticator::new("tc".to_string());
    let r = reply(d.handle_message(Some("Ie".to_string()), &post("/other", false), None, 0));
    assert_error(&r, Status::BadRequest, "unknown path");
    let get = Request { id: 7, method: Some(Method::Get), path: "/members".to_string(), has_body: false };
    assert_error(&reply(d.handle_message(Some("Ie".to_string()), &get, None, 0)), Status::BadRequest, "unknown path");

    let (issuer, acceptor) = pair();
    let mut store = TokenStore::new();
    let r = reply(issuer.handle_message(Some(&mut store), Some("Ie".to_string()), &post("/credential", true), None, code(1), 0));
    assert_error(&r, Status::BadRequest, "unknown path");
    let r = reply(acceptor.handle_message(Some(&mut store), Some("Ie".to_string()), &post("/tokens", true), None, 0, 0));
    assert_error(&r, Status::BadRequest, "unknown path");
}

#[test]
fn token_handlers_require_secure_channel() {
    let (issuer, acceptor) = pair();
    let mut store = TokenStore::new();
    let body = CreateToken { attributes: pairs(&[]) };
    let r = reply(issuer.handle_message(Some(&mut store), None, &post("/tokens", true), Some(body), code(1), 0));
    assert_error(&r, Status::Forbidden, "secure channel required");
    let r = reply(acceptor.handle_message(Some(&mut store), None, &post("/credential", true), Some(code(1)), 0, 0));
    assert_error(&r, Status::Forbidden, "secure channel required");
    assert!(store.pop(&code(1)).is_none());
}

#[test]
fn issuer_and_acceptor_over_the_protocol() {
    let (issuer, acceptor) = pair();
    let mut store = TokenStore::new();
    let body = CreateToken { attributes: pairs(&[("role", "admin")]) };
    let r = reply(issuer.handle_message(Some(&mut store), Some("Ie".to_string()), &post("/tokens", true), Some(body), code(9), 100));
    assert_eq!(r.status, Status::Success);
    assert_eq!(r.body, Some(vec![9u8; 32]));
    match acceptor.handle_message(Some(&mut store), Some("Ip".to_string()), &post("/credential", true), Some(code(9)), 200, 5) {
        Outcome::Grant(w, resp) => {
            assert_eq!(resp.status, Status::Success);
            assert_eq!(w.identity, "Ip");
            assert_eq!(w.entry.attested_by.as_deref(), Some("Ie"));
            assert_eq!(value_of(&w, "role"), Some("admin"));
        }
        other => panic!("unexpected {:?}", other),
    }
    let r = reply(acceptor.handle_message(Some(&mut store), Some("Ip".to_string()), &post("/", true), Some(code(9)), 300, 5));
    assert_error(&r, Status::Forbidden, "unknown token");
}

#[test]
fn acceptor_reports_expired_token() {
    let (issuer, acceptor) = pair();
    let mut store = TokenStore::new();
    issuer.issue_token(&mut store, &"Ie".to_string(), pairs(&[]), code(8), 0);
    let r = reply(acceptor.handle_message(Some(&mut store), Some("Ip".to_string()), &post("/credential", true), Some(code(8)), 700_000, 0));
    assert_error(&r, Status::Forbidden, "expired token");
}

#[test]
fn unavailable_store_is_an_internal_error() {
    let (issuer, acceptor) = pair();
    let body = CreateToken { attributes: pairs(&[]) };
    let r = reply(issuer.handle_message(None, Some("Ie".to_string()), &post("/", true), Some(body), code(1), 0));
    assert_error(&r, Status::InternalServerError, "failed to get read lock on tokens table");
    let r = reply(acceptor.handle_message(None, Some("Ie".to_string()), &post("/", true), Some(code(1)), 0, 0));
    assert_error(&r, Status::InternalServerError, "Failed to get read lock on tokens table");
}

#[test]
fn token_handlers_undecodable_body_is_malformed() {
    let (issuer, acceptor) = pair();
    let mut store = TokenStore::new();
    assert!(matches!(
        issuer.handle_message(Some(&mut store), Some("Ie".to_string()), &post("/tokens", true), None, code(1), 0),
        Outcome::Malformed
    ));
    assert!(matches!(
        acceptor.handle_message(Some(&mut store), Some("Ie".to_string()), &post("/credential", true), None, 0, 0),
        Outcome::Malformed
    ));
}
