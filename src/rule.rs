use vstd::prelude::*;
use vstd::utf8::*;

use crate::expression::{regex_accepts, regex_builds, Expression};
use crate::glob::{
    all_ascii, anchored_matches, build_source, lemma_anchored_glob, plain_haystack, visible, collapse_stars, collapsed, expression_source, glob_match,
    glob_matches, DOLLAR, STAR,
};
use crate::path::{normalize_bytes, normalized};
use crate::text::{lemma_ascii_utf8, string_from_utf8};

verus! {

/// Upper bound, in bytes, on the compiled form of a pattern's expression.
pub const EXPRESSION_SIZE_LIMIT: usize = 43008;

/// The error of a pattern whose expression could not be compiled within
/// [`EXPRESSION_SIZE_LIMIT`].
#[derive(Debug)]
pub enum WildcardError {
    Regex(regex::Error),
}

/// Whether `b` occurs in `s`.
pub fn contains_byte(s: &[u8], b: u8) -> (r: bool)
    ensures
        r == s@.contains(b),
{
    let mut i: usize = 0;
    while i < s.len()
        invariant
            i <= s@.len(),
            forall|j: int| 0 <= j < i ==> s@[j] != b,
        decreases s@.len() - i,
    {
        if s[i] == b {
            return true;
        }
        i = i + 1;
    }
    false
}

/// The pattern holds `*` or `$`.
pub open spec fn has_wildcard(p: Seq<u8>) -> bool {
    p.contains(STAR) || p.contains(DOLLAR)
}

/// The pattern needs a regular expression: after collapsing, it holds `$`.
pub open spec fn needs_expression(p: Seq<u8>) -> bool {
    collapsed(p).contains(DOLLAR)
}

/// The text of the regular expression compiled for pattern `p`.
pub open spec fn pattern_expression(p: Seq<u8>) -> Seq<char> {
    decode_utf8(expression_source(collapsed(p)))
}

/// Whether pattern `p` matches path `path`: a plain pattern is a prefix of
/// the path; one with `*` but no `$` matches a prefix of the path with `*`
/// standing for any sequence; one with `$` goes by its regular expression.
pub open spec fn pattern_matches(p: Seq<u8>, path: Seq<u8>) -> bool {
    if !has_wildcard(p) {
        p.is_prefix_of(path)
    } else if !needs_expression(p) {
        glob_matches(collapsed(p), path)
    } else {
        regex_accepts(pattern_expression(p), path)
    }
}

/// The pattern can be compiled: it needs no regular expression, or its
/// expression compiles within [`EXPRESSION_SIZE_LIMIT`].
pub open spec fn pattern_compiles(p: Seq<u8>) -> bool {
    !needs_expression(p) || regex_builds(pattern_expression(p), EXPRESSION_SIZE_LIMIT as nat)
}

/// The matcher of a pattern that holds `*` or `$`.
#[derive(Debug)]
pub enum Wildcard {
    /// A pattern with `*` and no `$`, with its runs of `*` collapsed.
    Universal(Vec<u8>),
    /// A pattern with `$`, compiled to an anchored regular expression.
    Both(Expression),
}

impl Wildcard {
    /// This matcher was built from pattern `p`.
    pub open spec fn built_from(&self, p: Seq<u8>) -> bool {
        match self {
            Wildcard::Universal(q) => q@ == collapsed(p) && !needs_expression(p),
            Wildcard::Both(e) => needs_expression(p) && e.source() == pattern_expression(p),
        }
    }

    /// Builds the matcher of the pattern bytes `p`, visible ASCII
    /// characters: `None` where it holds neither `*` nor `$`.
    pub(crate) fn from_bytes(p: &[u8]) -> (r: Result<Option<Wildcard>, WildcardError>)
        requires
            visible(p@),
        ensures
            r matches Ok(None) ==> !has_wildcard(p@),
            r matches Ok(Some(w)) ==> has_wildcard(p@) && w.built_from(p@),
            r is Ok <==> pattern_compiles(p@),
    {
        let star = contains_byte(p, STAR);
        let dollar = contains_byte(p, DOLLAR);
        if !star && !dollar {
            proof {
                lemma_collapsed_subset(p@);
            }
            return Ok(None);
        }
        let q = collapse_stars(p);
        if !contains_byte(q.as_slice(), DOLLAR) {
            return Ok(Some(Wildcard::Universal(q)));
        }
        proof {
            lemma_collapsed_subset(p@);
        }
        let src = build_source(q.as_slice());
        let ghost bytes = src@;
        proof {
            lemma_ascii_utf8(bytes);
        }
        match string_from_utf8(src) {
            Ok(text) => match Expression::compile(text.as_str(), EXPRESSION_SIZE_LIMIT) {
                Ok(e) => Ok(Some(Wildcard::Both(e))),
                Err(e) => Err(WildcardError::Regex(e)),
            },
            Err(_) => {
                assert(false);
                Ok(None)
            },
        }
    }

    /// Builds the matcher of the normalized form of `pattern` (see
    /// [`normalize_path`](crate::normalize_path)): `None` where it holds
    /// neither `*` nor `$`.
    pub fn new(pattern: &str) -> (r: Result<Option<Wildcard>, WildcardError>)
        ensures
            ({
                let p = normalized(encode_utf8(pattern@));
                &&& r matches Ok(None) ==> !has_wildcard(p)
                &&& r matches Ok(Some(w)) ==> has_wildcard(p) && w.built_from(p)
                &&& r is Ok <==> pattern_compiles(p)
            }),
    {
        let p = normalize_bytes(pattern.as_bytes());
        Wildcard::from_bytes(p.as_slice())
    }

    /// What this matcher decides for `path`.
    pub open spec fn matches(&self, path: Seq<u8>) -> bool {
        match self {
            Wildcard::Universal(q) => glob_matches(q@, path),
            Wildcard::Both(e) => regex_accepts(e.source(), path),
        }
    }

    /// Whether the path bytes match this matcher.
    pub fn matches_bytes(&self, path: &[u8]) -> (r: bool)
        ensures
            r == self.matches(path@),
    {
        match self {
            Wildcard::Universal(q) => glob_match(q.as_slice(), path),
            Wildcard::Both(e) => e.is_match(path),
        }
    }

    /// Whether `path`, taken as it is, matches this matcher.
    pub fn is_match(&self, path: &str) -> (r: bool)
        ensures
            r == self.matches(encode_utf8(path@)),
    {
        self.matches_bytes(path.as_bytes())
    }
}

/// Collapsing keeps every byte's presence and keeps ASCII.
pub proof fn lemma_collapsed_subset(p: Seq<u8>)
    ensures
        forall|b: u8| collapsed(p).contains(b) ==> p.contains(b),
        all_ascii(p) ==> all_ascii(collapsed(p)),
        visible(p) ==> visible(collapsed(p)),
    decreases p.len(),
{
    if p.len() > 0 {
        lemma_collapsed_subset(p.drop_last());
        let q = collapsed(p.drop_last());
        let c = collapsed(p);
        assert(c == q || c == q.push(p.last()));
        assert forall|b: u8| c.contains(b) implies p.contains(b) by {
            let k = choose|k: int| 0 <= k < c.len() && c[k] == b;
            if k < q.len() {
                assert(q[k] == b);
                assert(q.contains(b));
                assert(p.drop_last().contains(b));
                let m = choose|m: int| 0 <= m < p.drop_last().len() && p.drop_last()[m] == b;
                assert(p[m] == b);
            } else {
                assert(p[p.len() - 1] == b);
            }
        }
        if visible(p) {
            assert(visible(p.drop_last()));
        }
        if all_ascii(p) {
            assert(all_ascii(p.drop_last()));
        }
    }
}

/// The model of a rule: its normalized pattern and whether it allows.
pub type RuleView = (Seq<u8>, bool);

/// A compiled path pattern with an allow or disallow verdict.
#[derive(Debug)]
pub struct Rule {
    pattern: Vec<u8>,
    allow: bool,
    wildcard: Option<Wildcard>,
}

impl View for Rule {
    type V = RuleView;

    closed spec fn view(&self) -> RuleView {
        (self.pattern@, self.allow)
    }
}

/// Whether rule `r` matches the normalized path `path`.
pub open spec fn rule_matches(r: RuleView, path: Seq<u8>) -> bool {
    path_matches(r.0, path)
}

/// What pattern `p` means for `path`: a plain pattern is a prefix of the
/// path; one with `*` or `$` (runs of `*` collapsed) matches a prefix of the
/// path, `*` standing for any sequence and `$` for the end of the path.
pub open spec fn path_matches(p: Seq<u8>, path: Seq<u8>) -> bool {
    if !has_wildcard(p) {
        p.is_prefix_of(path)
    } else {
        anchored_matches(collapsed(p), path)
    }
}

impl Rule {
    /// The matcher agrees with the pattern it was built from.
    pub closed spec fn wf(&self) -> bool {
        &&& visible(self.pattern@)
        &&& match self.wildcard {
            None => !has_wildcard(self.pattern@),
            Some(w) => has_wildcard(self.pattern@) && w.built_from(self.pattern@),
        }
    }

    /// Creates a rule for the normalized form of `pattern` (see
    /// [`normalize_path`](crate::normalize_path)); fails exactly where the
    /// pattern needs a regular expression and it cannot be compiled.
    pub fn new(pattern: &str, allow: bool) -> (r: Result<Rule, WildcardError>)
        ensures
            r matches Ok(rule) ==> rule.wf() && rule@ == (normalized(encode_utf8(pattern@)), allow),
            r is Ok <==> pattern_compiles(normalized(encode_utf8(pattern@))),
    {
        Rule::from_bytes(pattern.as_bytes(), allow)
    }

    /// Creates a rule for the normalized form of the pattern bytes.
    pub fn from_bytes(pattern: &[u8], allow: bool) -> (r: Result<Rule, WildcardError>)
        ensures
            r matches Ok(rule) ==> rule.wf() && rule@ == (normalized(pattern@), allow),
            r is Ok <==> pattern_compiles(normalized(pattern@)),
    {
        let pattern = normalize_bytes(pattern);
        match Wildcard::from_bytes(pattern.as_slice()) {
            Ok(wildcard) => Ok(Rule { pattern, allow, wildcard }),
            Err(e) => Err(e),
        }
    }

    /// The normalized pattern.
    pub fn pattern(&self) -> (r: &[u8])
        ensures
            r@ == self@.0,
    {
        self.pattern.as_slice()
    }

    /// The length in bytes of the normalized pattern.
    pub fn len(&self) -> (r: usize)
        ensures
            r == self@.0.len(),
    {
        self.pattern.len()
    }

    /// Whether the rule allows the paths it matches.
    pub fn is_allowed(&self) -> (r: bool)
        ensures
            r == self@.1,
    {
        self.allow
    }

    /// Whether the normalized path bytes match the pattern.
    pub fn matches_bytes(&self, path: &[u8]) -> (r: bool)
        requires
            self.wf(),
        ensures
            r == pattern_matches(self@.0, path@),
            plain_haystack(path@) ==> r == rule_matches(self@, path@),
    {
        let ghost p = self.pattern@;
        match &self.wildcard {
            None => starts_with(path, self.pattern.as_slice()),
            Some(Wildcard::Universal(q)) => {
                proof {
                    lemma_anchored_glob(q@, 0, path@, 0);
                }
                glob_match(q.as_slice(), path)
            },
            Some(Wildcard::Both(e)) => {
                proof {
                    lemma_collapsed_subset(p);
                }
                let r = e.is_match(path);
                proof {
                    if plain_haystack(path@) {
                        assert(r == anchored_matches(collapsed(p), path@));
                    }
                }
                r
            },
        }
    }

    /// Whether the normalized relative path matches the pattern.
    pub fn is_match(&self, path: &str) -> (r: bool)
        requires
            self.wf(),
        ensures
            r == pattern_matches(self@.0, encode_utf8(path@)),
            plain_haystack(encode_utf8(path@)) ==> r == rule_matches(self@, encode_utf8(path@)),
    {
        self.matches_bytes(path.as_bytes())
    }
}

/// Whether `prefix` is a prefix of `s`.
pub fn starts_with(s: &[u8], prefix: &[u8]) -> (r: bool)
    ensures
        r == prefix@.is_prefix_of(s@),
{
    if prefix.len() > s.len() {
        return false;
    }
    let mut i: usize = 0;
    while i < prefix.len()
        invariant
            i <= prefix@.len() <= s@.len(),
            forall|j: int| 0 <= j < i ==> prefix@[j] == s@[j],
        decreases prefix@.len() - i,
    {
        if prefix[i] != s[i] {
            return false;
        }
        i = i + 1;
    }
    assert(prefix@ =~= s@.subrange(0, prefix@.len() as int));
    true
}

} // verus!
