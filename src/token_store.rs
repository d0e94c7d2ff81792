use vstd::prelude::*;
use lru::LruCache;
use std::num::NonZeroUsize;

verus! {

/// A one-time enrollment code.
pub type Code = [u8; 32];

/// What a code stands for until it is redeemed.
#[derive(Debug)]
pub struct Token {
    /// Attributes granted on redemption, as (name, value) pairs.
    pub attrs: Vec<(String, String)>,
    /// The enroller that issued the code.
    pub generated_by: String,
    /// Monotonic time of issuance, in milliseconds.
    pub created_at_ms: u64,
}

/// Whether `k` is the key of one of the entries.
pub open spec fn has_key(s: Seq<(Code, Token)>, k: Code) -> bool {
    exists|i: int| 0 <= i < s.len() && #[trigger] s[i].0 == k
}

/// The position of key `k` among the entries (meaningful when `has_key`).
pub open spec fn key_index(s: Seq<(Code, Token)>, k: Code) -> int {
    choose|i: int| 0 <= i < s.len() && #[trigger] s[i].0 == k
}

/// No two entries share a key.
pub open spec fn keys_unique(s: Seq<(Code, Token)>) -> bool {
    forall|i: int, j: int| 0 <= i < s.len() && 0 <= j < s.len() && i != j ==> #[trigger] s[i].0 != #[trigger] s[j].0
}

/// The entries after inserting `(k, v)`: an existing entry for `k` takes the
/// new value and becomes the most recently used; otherwise a full cache first
/// drops its least recently used entry.
pub open spec fn lru_put(s: Seq<(Code, Token)>, k: Code, v: Token, cap: nat) -> Seq<(Code, Token)> {
    if has_key(s, k) {
        s.remove(key_index(s, k)).push((k, v))
    } else if s.len() >= cap {
        s.drop_first().push((k, v))
    } else {
        s.push((k, v))
    }
}

/// The entries after removing the one for `k`, if any.
pub open spec fn lru_remove(s: Seq<(Code, Token)>, k: Code) -> Seq<(Code, Token)> {
    if has_key(s, k) {
        s.remove(key_index(s, k))
    } else {
        s
    }
}

/// The value stored for `k`, if any.
pub open spec fn lru_lookup(s: Seq<(Code, Token)>, k: Code) -> Option<Token> {
    if has_key(s, k) {
        Some(s[key_index(s, k)].1)
    } else {
        None
    }
}

/// The cache of outstanding tokens. The `lru` cache type cannot be declared
/// to the verifier (its default hasher comes from a crate this library does
/// not name), so it is held here, opaque, and read only through the trusted
/// functions below.
#[verifier::external_body]
pub struct TokenCache {
    inner: LruCache<Code, Token>,
}

/// The entries of a token cache, least recently used first.
pub uninterp spec fn cache_entries(c: TokenCache) -> Seq<(Code, Token)>;

/// The capacity a token cache was made with.
pub uninterp spec fn cache_capacity(c: TokenCache) -> nat;

/// Relies on `LruCache::new`: an empty cache holding at most `cap` entries.
#[verifier::external_body]
fn new_cache(cap: usize) -> (r: TokenCache)
    requires
        cap > 0,
    ensures
        cache_entries(r) == Seq::<(Code, Token)>::empty(),
        cache_capacity(r) == cap,
{
    TokenCache { inner: LruCache::new(NonZeroUsize::new(cap).unwrap()) }
}

/// Relies on `LruCache::put`: stores the value under `k` and marks it most
/// recently used, evicting the least recently used entry of a full cache.
#[verifier::external_body]
fn cache_put(c: &mut TokenCache, k: Code, v: Token)
    requires
        keys_unique(cache_entries(*old(c))),
    ensures
        cache_entries(*final(c)) == lru_put(cache_entries(*old(c)), k, v, cache_capacity(*old(c))),
        cache_capacity(*final(c)) == cache_capacity(*old(c)),
{
    c.inner.put(k, v);
}

/// Relies on `LruCache::pop`: removes the entry for `k` and hands back its value.
#[verifier::external_body]
fn cache_pop(c: &mut TokenCache, k: &Code) -> (r: Option<Token>)
    requires
        keys_unique(cache_entries(*old(c))),
    ensures
        r == lru_lookup(cache_entries(*old(c)), *k),
        cache_entries(*final(c)) == lru_remove(cache_entries(*old(c)), *k),
        cache_capacity(*final(c)) == cache_capacity(*old(c)),
{
    c.inner.pop(k)
}

/// How many outstanding tokens a store keeps.
pub const TOKEN_CAPACITY: usize = 128;

/// Removing one entry keeps the other keys distinct and drops `k` for good.
proof fn lemma_remove_keeps_unique(s: Seq<(Code, Token)>, k: Code)
    requires
        keys_unique(s),
    ensures
        keys_unique(lru_remove(s, k)),
        !has_key(lru_remove(s, k), k),
        lru_remove(s, k).len() == if has_key(s, k) { s.len() - 1 } else { s.len() as int },
{
    if has_key(s, k) {
        let i = key_index(s, k);
        let r = s.remove(i);
        assert forall|a: int, b: int| 0 <= a < r.len() && 0 <= b < r.len() && a != b implies #[trigger] r[a].0 != #[trigger] r[b].0 by {
            let a2 = if a < i { a } else { a + 1 };
            let b2 = if b < i { b } else { b + 1 };
            assert(r[a] == s[a2]);
            assert(r[b] == s[b2]);
        }
        if has_key(r, k) {
            let j = choose|j: int| 0 <= j < r.len() && #[trigger] r[j].0 == k;
            let j2 = if j < i { j } else { j + 1 };
            assert(r[j] == s[j2]);
        }
    }
}

/// Inserting keeps keys distinct and never grows past the capacity.
proof fn lemma_put_keeps_unique(s: Seq<(Code, Token)>, k: Code, v: Token, cap: nat)
    requires
        keys_unique(s),
        s.len() <= cap,
        cap > 0,
    ensures
        keys_unique(lru_put(s, k, v, cap)),
        lru_put(s, k, v, cap).len() <= cap,
{
    let t = if has_key(s, k) {
        lemma_remove_keeps_unique(s, k);
        lru_remove(s, k)
    } else if s.len() >= cap {
        s.drop_first()
    } else {
        s
    };
    assert(keys_unique(t)) by {
        if !has_key(s, k) && s.len() >= cap {
            assert forall|a: int, b: int| 0 <= a < t.len() && 0 <= b < t.len() && a != b implies #[trigger] t[a].0 != #[trigger] t[b].0 by {
                assert(t[a] == s[a + 1]);
                assert(t[b] == s[b + 1]);
            }
        }
    }
    assert(!has_key(t, k)) by {
        if !has_key(s, k) && has_key(t, k) {
            let j = choose|j: int| 0 <= j < t.len() && #[trigger] t[j].0 == k;
            if s.len() >= cap {
                assert(t[j] == s[j + 1]);
            } else {
                assert(t[j] == s[j]);
            }
        }
    }
    let r = t.push((k, v));
    assert(r == lru_put(s, k, v, cap));
    assert forall|a: int, b: int| 0 <= a < r.len() && 0 <= b < r.len() && a != b implies #[trigger] r[a].0 != #[trigger] r[b].0 by {
        if a < t.len() && b < t.len() {
            assert(r[a] == t[a] && r[b] == t[b]);
        } else if a < t.len() {
            assert(r[a] == t[a]);
        } else {
            assert(r[b] == t[b]);
        }
    }
}

/// The single-use token table shared by the issuer and the acceptor: a
/// least-recently-used cache of at most `TOKEN_CAPACITY` tokens keyed by code.
pub struct TokenStore {
    cache: TokenCache,
}

impl TokenStore {
    /// The stored tokens, least recently used first.
    pub closed spec fn entries(&self) -> Seq<(Code, Token)> {
        cache_entries(self.cache)
    }

    pub closed spec fn capacity(&self) -> nat {
        cache_capacity(self.cache)
    }

    /// Codes are distinct and the store never exceeds its capacity.
    pub open spec fn wf(&self) -> bool {
        &&& keys_unique(self.entries())
        &&& self.entries().len() <= TOKEN_CAPACITY
        &&& self.capacity() == TOKEN_CAPACITY
    }

    /// Whether a token is outstanding under `code`.
    pub open spec fn contains(&self, code: Code) -> bool {
        has_key(self.entries(), code)
    }

    /// An empty store.
    pub fn new() -> (r: TokenStore)
        ensures
            r.wf(),
            r.entries() == Seq::<(Code, Token)>::empty(),
    {
        TokenStore { cache: new_cache(TOKEN_CAPACITY) }
    }

    /// Stores `token` under `code`, replacing any token already there and
    /// evicting the least recently used one when the store is full.
    pub fn put(&mut self, code: Code, token: Token)
        requires
            old(self).wf(),
        ensures
            final(self).wf(),
            final(self).entries() == lru_put(old(self).entries(), code, token, TOKEN_CAPACITY as nat),
    {
        proof {
            lemma_put_keeps_unique(self.entries(), code, token, TOKEN_CAPACITY as nat);
        }
        cache_put(&mut self.cache, code, token);
    }

    /// Removes the token stored under `code` and hands it back. Once popped, a
    /// code is gone whether or not its token is then honoured.
    pub fn pop(&mut self, code: &Code) -> (r: Option<Token>)
        requires
            old(self).wf(),
        ensures
            final(self).wf(),
            r == lru_lookup(old(self).entries(), *code),
            final(self).entries() == lru_remove(old(self).entries(), *code),
            !final(self).contains(*code),
    {
        proof {
            lemma_remove_keeps_unique(self.entries(), *code);
        }
        cache_pop(&mut self.cache, code)
    }
}

} // verus!
