use vstd::prelude::*;

verus! {

/// The identifier of a protocol participant, as issued by the identity layer.
pub type IdentityIdentifier = String;

/// Name of the synthetic attribute that records the issuing authority for
/// older verifiers.
pub const LEGACY_ID: &'static str = "legacy_id";

/// Name of the synthetic attribute that records the issuing authority.
pub const TRUST_CONTEXT_ID: &'static str = "trust_context_id";

/// Named attributes as the verifier sees them.
pub open spec fn pairs_view(s: Seq<(String, String)>) -> Seq<(Seq<char>, Seq<char>)> {
    s.map_values(|p: (String, String)| (p.0@, p.1@))
}

/// The mapping that a list of (name, value) pairs denotes; a later pair for a
/// name overrides an earlier one.
pub open spec fn pairs_to_map(s: Seq<(Seq<char>, Seq<char>)>) -> Map<Seq<char>, Seq<char>>
    decreases s.len(),
{
    if s.len() == 0 {
        Map::empty()
    } else {
        pairs_to_map(s.drop_last()).insert(s.last().0, s.last().1)
    }
}

/// The attributes granted by the authority of `trust_context`: the requested
/// ones followed by the two synthetic ones.
pub open spec fn granted_pairs(
    requested: Seq<(Seq<char>, Seq<char>)>,
    trust_context: Seq<char>,
) -> Seq<(Seq<char>, Seq<char>)> {
    requested + seq![(LEGACY_ID@, trust_context), (TRUST_CONTEXT_ID@, trust_context)]
}

/// Attributes bound to an identity, as handed to the attribute store.
#[derive(Debug)]
pub struct AttributesEntry {
    /// (name, value) pairs; a later pair for a name overrides an earlier one.
    /// Values are stored as their UTF-8 bytes.
    pub attrs: Vec<(String, String)>,
    /// Seconds since the Unix epoch at which the entry was made.
    pub added: u64,
    /// Seconds since the Unix epoch after which the entry lapses.
    pub expires: Option<u64>,
    /// The identity that vouched for the entry.
    pub attested_by: Option<IdentityIdentifier>,
}

impl AttributesEntry {
    /// The attributes of the entry, by name.
    pub open spec fn attributes(&self) -> Map<Seq<char>, Seq<char>> {
        pairs_to_map(pairs_view(self.attrs@))
    }
}

/// A write of attributes for an identity, to be made to the attribute store.
#[derive(Debug)]
pub struct AttributesWrite {
    pub identity: IdentityIdentifier,
    pub entry: AttributesEntry,
}

/// `w` binds to `identity` the attributes `requested` with the two synthetic
/// ones of `trust_context`, made at `now`, never lapsing, vouched for by
/// `issuer`.
pub open spec fn grants(
    w: AttributesWrite,
    identity: Seq<char>,
    requested: Seq<(Seq<char>, Seq<char>)>,
    trust_context: Seq<char>,
    now: u64,
    issuer: Seq<char>,
) -> bool {
    &&& w.identity@ == identity
    &&& pairs_view(w.entry.attrs@) == granted_pairs(requested, trust_context)
    &&& w.entry.added == now
    &&& w.entry.expires is None
    &&& w.entry.attested_by matches Some(a) && a@ == issuer
}

/// Copies `requested` and adds `legacy_id` and `trust_context_id`, both set to
/// `trust_context`.
pub fn grant_attributes(requested: &Vec<(String, String)>, trust_context: &String) -> (r: Vec<(String, String)>)
    ensures
        pairs_view(r@) == granted_pairs(pairs_view(requested@), trust_context@),
{
    let mut r: Vec<(String, String)> = Vec::new();
    let mut i: usize = 0;
    while i < requested.len()
        invariant
            i <= requested.len(),
            r@ == requested@.subrange(0, i as int),
        decreases requested.len() - i,
    {
        let k = requested[i].0.clone();
        let v = requested[i].1.clone();
        r.push((k, v));
        assert(r@ =~= requested@.subrange(0, i + 1));
        i = i + 1;
    }
    assert(requested@.subrange(0, i as int) == requested@);
    r.push((LEGACY_ID.to_owned(), trust_context.clone()));
    r.push((TRUST_CONTEXT_ID.to_owned(), trust_context.clone()));
    assert(pairs_view(r@) =~= granted_pairs(pairs_view(requested@), trust_context@));
    r
}

/// The granted attributes are the requested ones, with `legacy_id` and
/// `trust_context_id` set to the trust context whatever was requested for them.
pub proof fn lemma_granted_attributes(requested: Seq<(Seq<char>, Seq<char>)>, trust_context: Seq<char>)
    ensures
        pairs_to_map(granted_pairs(requested, trust_context)) == pairs_to_map(requested).insert(
            LEGACY_ID@,
            trust_context,
        ).insert(TRUST_CONTEXT_ID@, trust_context),
{
    let g = granted_pairs(requested, trust_context);
    let g1 = g.drop_last();
    assert(g1 =~= requested.push((LEGACY_ID@, trust_context)));
    assert(g1.drop_last() =~= requested);
    assert(pairs_to_map(g) == pairs_to_map(g1).insert(TRUST_CONTEXT_ID@, trust_context));
    assert(pairs_to_map(g1) == pairs_to_map(requested).insert(LEGACY_ID@, trust_context));
}

} // verus!
