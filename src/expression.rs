use vstd::prelude::*;
use vstd::utf8::*;

use crate::glob::{anchored_matches, expression_source, plain_haystack, visible};

verus! {

#[verifier::external_type_specification]
#[verifier::external_body]
pub struct ExBytesRegex(regex::bytes::Regex);

#[verifier::external_type_specification]
#[verifier::external_body]
pub struct ExRegexError(regex::Error);

/// Whether the regular expression with text `source` matches somewhere in
/// `haystack` (the expression is compiled with the default syntax options).
pub uninterp spec fn regex_accepts(source: Seq<char>, haystack: Seq<u8>) -> bool;

/// Whether the expression with text `source` compiles into a program of at
/// most `limit` bytes (for the build target of this program).
pub uninterp spec fn regex_builds(source: Seq<char>, limit: nat) -> bool;

/// A compiled regular expression together with the text it was built from.
/// Its fields are set only by [`Expression::compile`].
#[derive(Debug)]
pub struct Expression {
    regex: regex::bytes::Regex,
    source: String,
}

impl Expression {
    /// The text the expression was compiled from.
    pub closed spec fn source(&self) -> Seq<char> {
        self.source@
    }

    /// Relies on `regex::bytes::RegexBuilder::{new, size_limit, dfa_size_limit,
    /// build}`: compiles `source` with the program size bounded by `limit`
    /// bytes and the lazy DFA cache capped at `limit` bytes; fails when the
    /// text is not a valid expression or its program exceeds the bound (a
    /// lazy DFA that would not fit is left out, which is no failure).
    #[verifier::external_body]
    pub(crate) fn compile(source: &str, limit: usize) -> (r: Result<Expression, regex::Error>)
        ensures
            r is Ok <==> regex_builds(source@, limit as nat),
            r matches Ok(e) ==> e.source() == source@,
    {
        let built = regex::bytes::RegexBuilder::new(source)
            .size_limit(limit)
            .dfa_size_limit(limit)
            .build();
        match built {
            Ok(regex) => Ok(Expression { regex, source: source.to_string() }),
            Err(e) => Err(e),
        }
    }

    /// Relies on `regex::bytes::Regex::is_match`: whether the expression
    /// matches somewhere in `haystack`, which depends on the expression's
    /// text and the haystack alone. For the text `^` followed by the pieces
    /// of a pattern of visible ASCII characters, the regex syntax fixes the
    /// answer on an ASCII haystack without line feed: `^` anchors at the
    /// start, an escaped or plain character matches itself, `.*` matches any
    /// run of characters other than a line feed, and `$` (not in multi-line
    /// mode) matches only at the end of the haystack.
    #[verifier::external_body]
    pub(crate) fn is_match(&self, haystack: &[u8]) -> (r: bool)
        ensures
            r == regex_accepts(self.source(), haystack@),
            forall|q: Seq<u8>|
                visible(q) && self.source() == decode_utf8(#[trigger] expression_source(q))
                    && plain_haystack(haystack@) ==> r == anchored_matches(q, haystack@),
    {
        self.regex.is_match(haystack)
    }
}

} // verus!
