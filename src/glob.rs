use vstd::prelude::*;

verus! {

/// The byte `*`: matches any (possibly empty) sequence of bytes.
pub const STAR: u8 = 42;

/// The byte `$`: anchors a pattern at the end of the path.
pub const DOLLAR: u8 = 36;

/// Does `p[i..]` match a prefix of `s[k..]`, where each `*` of the pattern
/// stands for any sequence of bytes and every other byte stands for itself?
pub open spec fn glob_at(p: Seq<u8>, i: int, s: Seq<u8>, k: int) -> bool
    decreases p.len() - i, s.len() - k,
{
    if i < 0 || k < 0 || i >= p.len() {
        true
    } else if p[i] == STAR {
        glob_at(p, i + 1, s, k) || (k < s.len() && glob_at(p, i, s, k + 1))
    } else {
        k < s.len() && s[k] == p[i] && glob_at(p, i + 1, s, k + 1)
    }
}

/// `p` matches a prefix of `s`, `*` standing for any sequence.
pub open spec fn glob_matches(p: Seq<u8>, s: Seq<u8>) -> bool {
    glob_at(p, 0, s, 0)
}

/// Decides whether `pattern` matches a prefix of `path`, where `*` in the
/// pattern matches any sequence of bytes (including none).
pub fn glob_match(pattern: &[u8], path: &[u8]) -> (r: bool)
    ensures
        r == glob_matches(pattern@, path@),
{
    let plen = pattern.len();
    let slen = path.len();
    // `next[k]` holds whether pattern[i..] matches a prefix of path[k..] for
    // the pattern index `i` of the previous round; `next_end` the same for
    // `k == slen`.
    let mut next: Vec<bool> = vec![true; slen];
    let mut next_end: bool = true;
    let mut i: usize = plen;
    while i > 0
        invariant
            i <= plen,
            plen == pattern@.len(),
            slen == path@.len(),
            next@.len() == slen,
            forall|j: int| 0 <= j < slen ==> next@[j] == glob_at(pattern@, i as int, path@, j),
            next_end == glob_at(pattern@, i as int, path@, slen as int),
        decreases i,
    {
        i = i - 1;
        let c = pattern[i];
        let mut cur: Vec<bool> = vec![false; slen];
        let cur_end: bool = c == STAR && next_end;
        let mut k: usize = slen;
        while k > 0
            invariant
                k <= slen,
                i < plen,
                c == pattern@[i as int],
                plen == pattern@.len(),
                slen == path@.len(),
                cur@.len() == slen,
                next@.len() == slen,
                forall|j: int| 0 <= j < slen ==> next@[j] == glob_at(pattern@, i + 1, path@, j),
                next_end == glob_at(pattern@, i + 1, path@, slen as int),
                cur_end == glob_at(pattern@, i as int, path@, slen as int),
                forall|j: int| k <= j < slen ==> cur@[j] == glob_at(pattern@, i as int, path@, j),
            decreases k,
        {
            k = k - 1;
            let after_cur = if k + 1 == slen {
                cur_end
            } else {
                cur[k + 1]
            };
            let after_next = if k + 1 == slen {
                next_end
            } else {
                next[k + 1]
            };
            let v = if c == STAR {
                next[k] || after_cur
            } else {
                path[k] == c && after_next
            };
            cur.set(k, v);
        }
        next = cur;
        next_end = cur_end;
    }
    if slen == 0 {
        next_end
    } else {
        next[0]
    }
}

/// `p` with every run of consecutive `*` shortened to a single `*`.
pub open spec fn collapsed(p: Seq<u8>) -> Seq<u8>
    decreases p.len(),
{
    if p.len() == 0 {
        p
    } else {
        let q = collapsed(p.drop_last());
        if p.last() == STAR && p.len() >= 2 && p[p.len() - 2] == STAR {
            q
        } else {
            q.push(p.last())
        }
    }
}

/// Shortens every run of consecutive `*` in `pattern` to a single `*`.
pub fn collapse_stars(pattern: &[u8]) -> (r: Vec<u8>)
    ensures
        r@ == collapsed(pattern@),
{
    let mut out: Vec<u8> = Vec::new();
    let mut i: usize = 0;
    while i < pattern.len()
        invariant
            i <= pattern@.len(),
            out@ == collapsed(pattern@.subrange(0, i as int)),
        decreases pattern@.len() - i,
    {
        let c = pattern[i];
        let ghost before = pattern@.subrange(0, i as int);
        let ghost after = pattern@.subrange(0, i + 1);
        assert(after.drop_last() =~= before);
        if !(c == STAR && i >= 1 && pattern[i - 1] == STAR) {
            out.push(c);
        }
        i = i + 1;
    }
    assert(pattern@.subrange(0, pattern@.len() as int) =~= pattern@);
    out
}

/// The byte `^`, which anchors an expression at the start of the haystack.
pub const CARET: u8 = 94;

/// The byte `.`, which in an expression matches any character.
pub const DOT: u8 = 46;

/// The byte `\`, which escapes a metacharacter in an expression.
pub const BACKSLASH: u8 = 92;

/// The characters that have a meaning in a regular expression:
/// `\ . + * ? ( ) | [ ] { } ^ $ # & - ~`.
pub open spec fn is_meta(b: u8) -> bool {
    b == 92 || b == 46 || b == 43 || b == 42 || b == 63 || b == 40 || b == 41 || b == 124
        || b == 91 || b == 93 || b == 123 || b == 125 || b == 94 || b == 36 || b == 35
        || b == 38 || b == 45 || b == 126
}

/// Whether `b` has a meaning in a regular expression.
pub fn is_meta_byte(b: u8) -> (r: bool)
    ensures
        r == is_meta(b),
{
    b == 92 || b == 46 || b == 43 || b == 42 || b == 63 || b == 40 || b == 41 || b == 124
        || b == 91 || b == 93 || b == 123 || b == 125 || b == 94 || b == 36 || b == 35
        || b == 38 || b == 45 || b == 126
}

/// The expression text for one byte of a pattern: `*` becomes "any
/// sequence", `$` the end anchor, and every other byte a literal.
pub open spec fn source_piece(c: u8) -> Seq<u8> {
    if c == STAR {
        seq![DOT, STAR]
    } else if c == DOLLAR {
        seq![DOLLAR]
    } else if is_meta(c) {
        seq![BACKSLASH, c]
    } else {
        seq![c]
    }
}

/// The expression text of the pieces of `p`, in order.
pub open spec fn source_body(p: Seq<u8>) -> Seq<u8>
    decreases p.len(),
{
    if p.len() == 0 {
        Seq::empty()
    } else {
        source_body(p.drop_last()) + source_piece(p.last())
    }
}

/// The regular expression for a pattern: anchored at the start of the path.
pub open spec fn expression_source(p: Seq<u8>) -> Seq<u8> {
    seq![CARET] + source_body(p)
}

/// All bytes are ASCII.
pub open spec fn all_ascii(s: Seq<u8>) -> bool {
    forall|i: int| 0 <= i < s.len() ==> s[i] < 128
}

/// Builds the regular expression text that matches the same paths as the
/// pattern: `^`, then each byte of the pattern as its piece.
pub fn build_source(pattern: &[u8]) -> (r: Vec<u8>)
    ensures
        r@ == expression_source(pattern@),
        all_ascii(pattern@) ==> all_ascii(r@),
{
    let mut out: Vec<u8> = Vec::new();
    out.push(CARET);
    let mut i: usize = 0;
    while i < pattern.len()
        invariant
            i <= pattern@.len(),
            out@ == seq![CARET] + source_body(pattern@.subrange(0, i as int)),
            all_ascii(pattern@) ==> all_ascii(out@),
        decreases pattern@.len() - i,
    {
        let c = pattern[i];
        let ghost before = pattern@.subrange(0, i as int);
        let ghost after = pattern@.subrange(0, i + 1);
        assert(after.drop_last() =~= before);
        let ghost prev = out@;
        if c == STAR {
            out.push(DOT);
            out.push(STAR);
        } else if c == DOLLAR {
            out.push(DOLLAR);
        } else if is_meta_byte(c) {
            out.push(BACKSLASH);
            out.push(c);
        } else {
            out.push(c);
        }
        assert(out@ =~= prev + source_piece(c));
        assert(seq![CARET] + source_body(after) =~= seq![CARET] + source_body(before)
            + source_piece(c));
        i = i + 1;
    }
    assert(pattern@.subrange(0, pattern@.len() as int) =~= pattern@);
    out
}

/// Every byte is a visible ASCII character (`!` to `~`).
pub open spec fn visible(s: Seq<u8>) -> bool {
    forall|i: int| 0 <= i < s.len() ==> 33 <= #[trigger] s[i] <= 126
}

/// Every byte is ASCII and none is a line feed.
pub open spec fn plain_haystack(s: Seq<u8>) -> bool {
    forall|i: int| 0 <= i < s.len() ==> #[trigger] s[i] < 128 && s[i] != 10
}

/// Does `p[i..]` match a prefix of `s[k..]`, where `*` stands for any
/// sequence of bytes, `$` for the end of `s`, and every other byte for
/// itself?
pub open spec fn anchored_at(p: Seq<u8>, i: int, s: Seq<u8>, k: int) -> bool
    decreases p.len() - i, s.len() - k,
{
    if i < 0 || k < 0 || i >= p.len() {
        true
    } else if p[i] == STAR {
        anchored_at(p, i + 1, s, k) || (k < s.len() && anchored_at(p, i, s, k + 1))
    } else if p[i] == DOLLAR {
        k == s.len() && anchored_at(p, i + 1, s, k)
    } else {
        k < s.len() && s[k] == p[i] && anchored_at(p, i + 1, s, k + 1)
    }
}

/// `p` matches a prefix of `s`, `*` standing for any sequence and `$` for
/// the end of `s`.
pub open spec fn anchored_matches(p: Seq<u8>, s: Seq<u8>) -> bool {
    anchored_at(p, 0, s, 0)
}

/// Without `$`, the two readings of a pattern agree.
pub proof fn lemma_anchored_glob(p: Seq<u8>, i: int, s: Seq<u8>, k: int)
    requires
        !p.contains(DOLLAR),
    ensures
        anchored_at(p, i, s, k) == glob_at(p, i, s, k),
    decreases p.len() - i, s.len() - k,
{
    if !(i < 0 || k < 0 || i >= p.len()) {
        assert(p[i] != DOLLAR);
        if p[i] == STAR {
            lemma_anchored_glob(p, i + 1, s, k);
            if k < s.len() {
                lemma_anchored_glob(p, i, s, k + 1);
            }
        } else {
            if k < s.len() {
                lemma_anchored_glob(p, i + 1, s, k + 1);
            }
        }
    }
}

/// Visible ASCII is a plain haystack.
pub proof fn lemma_visible_plain(s: Seq<u8>)
    requires
        visible(s),
    ensures
        plain_haystack(s),
{
    assert forall|i: int| 0 <= i < s.len() implies #[trigger] s[i] < 128 && s[i] != 10 by {
        assert(33 <= s[i] <= 126);
    }
}

} // verus!
