//! Anchored matching of an address against a prefix and a suffix.
use vstd::prelude::*;

verus! {

broadcast use vstd::string::axiom_spec_iter;

/// The characters of a string, in order.
fn chars_of(s: &str) -> (r: Vec<char>)
    ensures
        r@ == s@,
{
    let mut r: Vec<char> = Vec::new();
    for c in it: s.chars()
        invariant
            r@ == it.seq().take(it.index() as int),
    {
        r.push(c);
    }
    r
}

/// Whether an address passes a pattern: an empty prefix or suffix passes
/// every address, any other must anchor at the start or at the end.
pub open spec fn pattern_matches(address: Seq<char>, prefix: Seq<char>, suffix: Seq<char>) -> bool {
    &&& (prefix.len() == 0 || prefix.is_prefix_of(address))
    &&& (suffix.len() == 0 || suffix.is_suffix_of(address))
}

/// Whether `p` occurs in `s` starting at `start`.
fn occurs_at(s: &Vec<char>, p: &Vec<char>, start: usize) -> (r: bool)
    requires
        start + p.len() <= s.len(),
    ensures
        r == (p@ =~= s@.subrange(start as int, start + p.len())),
{
    let mut i: usize = 0;
    while i < p.len()
        invariant
            i <= p.len(),
            start + p.len() <= s.len(),
            forall|j: int| 0 <= j < i ==> p@[j] == s@[start + j],
        decreases p.len() - i,
    {
        if p[i] != s[start + i] {
            assert(p@[i as int] != s@.subrange(start as int, start + p.len())[i as int]);
            return false;
        }
        i = i + 1;
    }
    true
}

/// Tests an address against a prefix and a suffix.
pub fn address_matches(address: &str, prefix: &str, suffix: &str) -> (r: bool)
    ensures
        r == pattern_matches(address@, prefix@, suffix@),
{
    let a = chars_of(address);
    let p = chars_of(prefix);
    let s = chars_of(suffix);
    let prefix_ok = p.len() == 0 || (p.len() <= a.len() && occurs_at(&a, &p, 0));
    let suffix_ok = s.len() == 0 || (s.len() <= a.len() && occurs_at(&a, &s, a.len() - s.len()));
    prefix_ok && suffix_ok
}

/// The lowercase form of a string, as Unicode defines it.
pub uninterp spec fn lowercase_of(s: Seq<char>) -> Seq<char>;

/// Relies on str::to_lowercase: Unicode lowercasing, which depends on the
/// characters alone.
#[verifier::external_body]
fn to_lowercase(s: &str) -> (r: String)
    ensures
        r@ == lowercase_of(s@),
{
    s.to_lowercase()
}

/// What a search looks for: a prefix and a suffix of the address, either
/// possibly empty, held in lowercase.
pub struct SearchPattern {
    prefix: String,
    suffix: String,
}

impl SearchPattern {
    pub closed spec fn prefix_view(&self) -> Seq<char> {
        self.prefix@
    }

    pub closed spec fn suffix_view(&self) -> Seq<char> {
        self.suffix@
    }

    /// The pattern for the given prefix and suffix, compared without regard to case.
    pub fn new(prefix: &str, suffix: &str) -> (r: SearchPattern)
        ensures
            r.prefix_view() == lowercase_of(prefix@),
            r.suffix_view() == lowercase_of(suffix@),
    {
        SearchPattern { prefix: to_lowercase(prefix), suffix: to_lowercase(suffix) }
    }

    pub fn prefix(&self) -> (r: &str)
        ensures
            r@ == self.prefix_view(),
    {
        self.prefix.as_str()
    }

    pub fn suffix(&self) -> (r: &str)
        ensures
            r@ == self.suffix_view(),
    {
        self.suffix.as_str()
    }

    /// A pattern with nothing to look for, which every address passes.
    pub fn is_unconstrained(&self) -> (r: bool)
        ensures
            r == (self.prefix_view().len() == 0 && self.suffix_view().len() == 0),
    {
        self.prefix.as_str().is_empty() && self.suffix.as_str().is_empty()
    }

    /// Whether an address passes the pattern.
    pub fn matches(&self, address: &str) -> (r: bool)
        ensures
            r == pattern_matches(address@, self.prefix_view(), self.suffix_view()),
    {
        address_matches(address, self.prefix.as_str(), self.suffix.as_str())
    }
}

/// An unconstrained pattern passes every address.
pub proof fn lemma_empty_pattern_matches_all(address: Seq<char>)
    ensures
        pattern_matches(address, Seq::empty(), Seq::empty()),
{
}

} // verus!
