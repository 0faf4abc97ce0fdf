use vstd::prelude::*;
use vstd::slice::{slice_subrange, slice_to_vec};

use crate::directive::{Directive, DirectiveKind, DirectiveView};
use crate::path::SLASH;

verus! {

/// The byte `\n`.
pub const NEWLINE: u8 = 10;

/// The byte `\r`.
pub const CARRIAGE: u8 = 13;

/// The byte `#`, which starts a comment.
pub const COMMENT: u8 = 35;

/// The byte `:`, which separates a key from its value.
pub const COLON: u8 = 58;

/// The number of recognized key spellings.
pub const KEYWORDS: usize = 18;

/// The recognized spellings of the keys, in lower case: `user-agent`,
/// `useragent`, `user agent`; `allow`, `alow`, `allaw`; `disallow`,
/// `dissallow`, `dissalow`, `disalow`, `diasllow`, `disallaw`;
/// `crawl-delay`, `crawl delay`, `crawldelay`; `sitemap`, `site-map`,
/// `site map`.
pub open spec fn keyword(k: int) -> Seq<u8> {
    if k == 0 {
        // user-agent
        seq![117u8, 115, 101, 114, 45, 97, 103, 101, 110, 116]
    } else if k == 1 {
        // useragent
        seq![117u8, 115, 101, 114, 97, 103, 101, 110, 116]
    } else if k == 2 {
        // user agent
        seq![117u8, 115, 101, 114, 32, 97, 103, 101, 110, 116]
    } else if k == 3 {
        // allow
        seq![97u8, 108, 108, 111, 119]
    } else if k == 4 {
        // alow
        seq![97u8, 108, 111, 119]
    } else if k == 5 {
        // allaw
        seq![97u8, 108, 108, 97, 119]
    } else if k == 6 {
        // disallow
        seq![100u8, 105, 115, 97, 108, 108, 111, 119]
    } else if k == 7 {
        // dissallow
        seq![100u8, 105, 115, 115, 97, 108, 108, 111, 119]
    } else if k == 8 {
        // dissalow
        seq![100u8, 105, 115, 115, 97, 108, 111, 119]
    } else if k == 9 {
        // disalow
        seq![100u8, 105, 115, 97, 108, 111, 119]
    } else if k == 10 {
        // diasllow
        seq![100u8, 105, 97, 115, 108, 108, 111, 119]
    } else if k == 11 {
        // disallaw
        seq![100u8, 105, 115, 97, 108, 108, 97, 119]
    } else if k == 12 {
        // crawl-delay
        seq![99u8, 114, 97, 119, 108, 45, 100, 101, 108, 97, 121]
    } else if k == 13 {
        // crawl delay
        seq![99u8, 114, 97, 119, 108, 32, 100, 101, 108, 97, 121]
    } else if k == 14 {
        // crawldelay
        seq![99u8, 114, 97, 119, 108, 100, 101, 108, 97, 121]
    } else if k == 15 {
        // sitemap
        seq![115u8, 105, 116, 101, 109, 97, 112]
    } else if k == 16 {
        // site-map
        seq![115u8, 105, 116, 101, 45, 109, 97, 112]
    } else if k == 17 {
        // site map
        seq![115u8, 105, 116, 101, 32, 109, 97, 112]
    } else {
        Seq::empty()
    }
}

/// The kind of directive that spelling `k` introduces.
pub open spec fn keyword_kind(k: int) -> DirectiveKind {
    if k <= 2 {
        DirectiveKind::UserAgent
    } else if k <= 5 {
        DirectiveKind::Allow
    } else if k <= 11 {
        DirectiveKind::Disallow
    } else if k <= 14 {
        DirectiveKind::CrawlDelay
    } else {
        DirectiveKind::Sitemap
    }
}

/// The table of key spellings.
fn keyword_table() -> (r: Vec<Vec<u8>>)
    ensures
        r@.len() == KEYWORDS,
        forall|k: int| 0 <= k < KEYWORDS ==> (#[trigger] r@[k])@ == keyword(k),
{
    let mut t: Vec<Vec<u8>> = Vec::new();
    // user-agent
    t.push(vec![117u8, 115, 101, 114, 45, 97, 103, 101, 110, 116]);
    // useragent
    t.push(vec![117u8, 115, 101, 114, 97, 103, 101, 110, 116]);
    // user agent
    t.push(vec![117u8, 115, 101, 114, 32, 97, 103, 101, 110, 116]);
    // allow
    t.push(vec![97u8, 108, 108, 111, 119]);
    // alow
    t.push(vec![97u8, 108, 111, 119]);
    // allaw
    t.push(vec![97u8, 108, 108, 97, 119]);
    // disallow
    t.push(vec![100u8, 105, 115, 97, 108, 108, 111, 119]);
    // dissallow
    t.push(vec![100u8, 105, 115, 115, 97, 108, 108, 111, 119]);
    // dissalow
    t.push(vec![100u8, 105, 115, 115, 97, 108, 111, 119]);
    // disalow
    t.push(vec![100u8, 105, 115, 97, 108, 111, 119]);
    // diasllow
    t.push(vec![100u8, 105, 97, 115, 108, 108, 111, 119]);
    // disallaw
    t.push(vec![100u8, 105, 115, 97, 108, 108, 97, 119]);
    // crawl-delay
    t.push(vec![99u8, 114, 97, 119, 108, 45, 100, 101, 108, 97, 121]);
    // crawl delay
    t.push(vec![99u8, 114, 97, 119, 108, 32, 100, 101, 108, 97, 121]);
    // crawldelay
    t.push(vec![99u8, 114, 97, 119, 108, 100, 101, 108, 97, 121]);
    // sitemap
    t.push(vec![115u8, 105, 116, 101, 109, 97, 112]);
    // site-map
    t.push(vec![115u8, 105, 116, 101, 45, 109, 97, 112]);
    // site map
    t.push(vec![115u8, 105, 116, 101, 32, 109, 97, 112]);
    t
}

/// The kind of directive that spelling `k` introduces.
fn kind_of_keyword(k: usize) -> (r: DirectiveKind)
    ensures
        r == keyword_kind(k as int),
{
    if k <= 2 {
        DirectiveKind::UserAgent
    } else if k <= 5 {
        DirectiveKind::Allow
    } else if k <= 11 {
        DirectiveKind::Disallow
    } else if k <= 14 {
        DirectiveKind::CrawlDelay
    } else {
        DirectiveKind::Sitemap
    }
}

/// A byte that ends a line.
pub open spec fn is_eol(c: u8) -> bool {
    c == NEWLINE || c == CARRIAGE
}

/// Space or tab.
pub open spec fn is_space(c: u8) -> bool {
    c == 32 || c == 9
}

/// Whether `c` can stand inside a line.
pub fn b_not_line_ending(c: u8) -> (r: bool)
    ensures
        r == !is_eol(c),
{
    c != NEWLINE && c != CARRIAGE
}

/// Whether `c` can stand inside a line before its comment.
pub fn b_not_line_ending_or_comment(c: u8) -> (r: bool)
    ensures
        r == (!is_eol(c) && c != COMMENT),
{
    c != NEWLINE && c != CARRIAGE && c != COMMENT
}

/// `c` in lower case, for ASCII letters.
pub open spec fn lower(c: u8) -> u8 {
    if 65 <= c <= 90 {
        (c + 32) as u8
    } else {
        c
    }
}

/// The first position from `i` on that holds no space or tab.
pub open spec fn skip_spaces(s: Seq<u8>, i: int) -> int
    decreases s.len() - i,
{
    if 0 <= i < s.len() && is_space(s[i]) {
        skip_spaces(s, i + 1)
    } else {
        i
    }
}

/// The first position from `i` on that ends the line.
pub open spec fn content_end(s: Seq<u8>, i: int) -> int
    decreases s.len() - i,
{
    if 0 <= i < s.len() && !is_eol(s[i]) {
        content_end(s, i + 1)
    } else {
        i
    }
}

/// The first position from `i` on that holds no `\r`.
pub open spec fn skip_carriage(s: Seq<u8>, i: int) -> int
    decreases s.len() - i,
{
    if 0 <= i < s.len() && s[i] == CARRIAGE {
        skip_carriage(s, i + 1)
    } else {
        i
    }
}

/// The first position from `i` on that holds `#`, or the end.
pub open spec fn comment_start(s: Seq<u8>, i: int) -> int
    decreases s.len() - i,
{
    if 0 <= i < s.len() && s[i] != COMMENT {
        comment_start(s, i + 1)
    } else {
        i
    }
}

/// The end of `s[..e]` without its trailing spaces and tabs.
pub open spec fn trim_end(s: Seq<u8>, e: int) -> int
    decreases e,
{
    if 0 < e <= s.len() && is_space(s[e - 1]) {
        trim_end(s, e - 1)
    } else {
        e
    }
}

/// `s` without leading and trailing spaces and tabs.
pub open spec fn trim_spaces(s: Seq<u8>) -> Seq<u8> {
    let a = skip_spaces(s, 0);
    let b = trim_end(s, s.len() as int);
    if a < b {
        s.subrange(a, b)
    } else {
        Seq::empty()
    }
}

/// The key spelling `kw` stands at position `a` of `line`, in any case.
pub open spec fn keyword_at(line: Seq<u8>, a: int, kw: Seq<u8>) -> bool {
    &&& 0 <= a
    &&& a + kw.len() <= line.len()
    &&& forall|j: int| 0 <= j < kw.len() ==> lower(#[trigger] line[a + j]) == kw[j]
}

/// Where the value starts after a key that ends at `p`: after a colon
/// (spaces allowed before it), or after spaces, or at the end of the line;
/// `None` where the key runs on into other text.
pub open spec fn value_start(line: Seq<u8>, p: int) -> Option<int> {
    let q = skip_spaces(line, p);
    if q < line.len() && line[q] == COLON {
        Some(q + 1)
    } else if q > p || q >= line.len() {
        Some(q)
    } else {
        None
    }
}

/// The first key spelling, from the `k`-th on, that stands at `a` and is
/// followed by a separator: the directive kind and where its value starts.
pub open spec fn match_keyword(line: Seq<u8>, a: int, k: int) -> Option<(DirectiveKind, int)>
    decreases KEYWORDS - k,
{
    if k < 0 || k >= KEYWORDS {
        None
    } else if keyword_at(line, a, keyword(k)) && value_start(line, a + keyword(k).len()) is Some {
        Some((keyword_kind(k), value_start(line, a + keyword(k).len())->0))
    } else {
        match_keyword(line, a, k + 1)
    }
}

/// The directive of one line (without its line ending): a recognized key
/// with the value up to any comment, trimmed; an empty `Disallow` stands for
/// `Allow: /`; any other line is unknown and keeps its bytes.
pub open spec fn classify(line: Seq<u8>) -> DirectiveView {
    match match_keyword(line, skip_spaces(line, 0), 0) {
        None => (DirectiveKind::Unknown, line),
        Some((kind, vs)) => {
            let v = trim_spaces(line.subrange(vs, comment_start(line, vs)));
            if kind == DirectiveKind::Disallow && v.len() == 0 {
                (DirectiveKind::Allow, seq![SLASH])
            } else {
                (kind, v)
            }
        },
    }
}

/// The first position from `i` on that holds no space or tab.
fn skip_spaces_from(s: &[u8], i: usize) -> (r: usize)
    requires
        i <= s@.len(),
    ensures
        r == skip_spaces(s@, i as int),
        i <= r <= s@.len(),
{
    let mut j = i;
    while j < s.len() && (s[j] == 32 || s[j] == 9)
        invariant
            i <= j <= s@.len(),
            skip_spaces(s@, i as int) == skip_spaces(s@, j as int),
        decreases s@.len() - j,
    {
        j = j + 1;
    }
    j
}

/// The first position from `i` on that holds `#`, or the end.
fn comment_start_from(s: &[u8], i: usize) -> (r: usize)
    requires
        i <= s@.len(),
    ensures
        r == comment_start(s@, i as int),
        i <= r <= s@.len(),
{
    let mut j = i;
    while j < s.len() && s[j] != COMMENT
        invariant
            i <= j <= s@.len(),
            comment_start(s@, i as int) == comment_start(s@, j as int),
        decreases s@.len() - j,
    {
        j = j + 1;
    }
    j
}

/// The end of `s` without its trailing spaces and tabs.
fn trim_end_of(s: &[u8]) -> (r: usize)
    ensures
        r == trim_end(s@, s@.len() as int),
        r <= s@.len(),
{
    let mut e = s.len();
    while e > 0 && (s[e - 1] == 32 || s[e - 1] == 9)
        invariant
            e <= s@.len(),
            trim_end(s@, s@.len() as int) == trim_end(s@, e as int),
        decreases e,
    {
        e = e - 1;
    }
    e
}

/// `s` without leading and trailing spaces and tabs.
pub fn trim_bytes(s: &[u8]) -> (r: Vec<u8>)
    ensures
        r@ == trim_spaces(s@),
{
    let a = skip_spaces_from(s, 0);
    let b = trim_end_of(s);
    if a < b {
        slice_to_vec(slice_subrange(s, a, b))
    } else {
        Vec::new()
    }
}

/// Whether the spelling `kw` stands at position `a` of `line`, in any case.
fn keyword_at_exec(line: &[u8], a: usize, kw: &[u8]) -> (r: bool)
    ensures
        r == keyword_at(line@, a as int, kw@),
{
    if kw.len() > line.len() || a > line.len() - kw.len() {
        return false;
    }
    let mut j: usize = 0;
    while j < kw.len()
        invariant
            j <= kw@.len(),
            a + kw@.len() <= line@.len(),
            forall|m: int| 0 <= m < j ==> lower(#[trigger] line@[a + m]) == kw@[m],
        decreases kw@.len() - j,
    {
        let n = line.len();
        assert((a as int) + (j as int) < n);
        let c = line[a + j];
        let l = if c >= 65 && c <= 90 {
            c + 32
        } else {
            c
        };
        if l != kw[j] {
            return false;
        }
        j = j + 1;
    }
    true
}

/// Where the value starts after a key that ends at `p`.
fn value_start_exec(line: &[u8], p: usize) -> (r: Option<usize>)
    requires
        p <= line@.len(),
    ensures
        r matches Some(v) ==> value_start(line@, p as int) == Some(v as int) && v <= line@.len(),
        r is None ==> value_start(line@, p as int) is None,
{
    let q = skip_spaces_from(line, p);
    if q < line.len() && line[q] == COLON {
        Some(q + 1)
    } else if q > p || q >= line.len() {
        Some(q)
    } else {
        None
    }
}

/// The directive of one line, without its line ending.
pub fn classify_line(line: &[u8], table: &Vec<Vec<u8>>) -> (r: Directive)
    requires
        table@.len() == KEYWORDS,
        forall|k: int| 0 <= k < KEYWORDS ==> (#[trigger] table@[k])@ == keyword(k),
    ensures
        r@ == classify(line@),
{
    let a = skip_spaces_from(line, 0);
    let mut k: usize = 0;
    while k < KEYWORDS
        invariant
            k <= KEYWORDS,
            a <= line@.len(),
            a == skip_spaces(line@, 0),
            table@.len() == KEYWORDS,
            forall|m: int| 0 <= m < KEYWORDS ==> (#[trigger] table@[m])@ == keyword(m),
            match_keyword(line@, a as int, 0) == match_keyword(line@, a as int, k as int),
        decreases KEYWORDS - k,
    {
        let kw = &table[k];
        assert(kw@ == keyword(k as int));
        if keyword_at_exec(line, a, kw.as_slice()) {
            let n = line.len();
            assert((a as int) + kw@.len() <= n);
            match value_start_exec(line, a + kw.len()) {
                Some(vs) => {
                    let kind = kind_of_keyword(k);
                    let end = comment_start_from(line, vs);
                    let v = trim_bytes(slice_subrange(line, vs, end));
                    if kind == DirectiveKind::Disallow && v.len() == 0 {
                        let slash = vec![SLASH];
                        assert(slash@ =~= seq![SLASH]);
                        return Directive::Allow(slash);
                    }
                    return Directive::new(kind, v);
                },
                None => {},
            }
        }
        k = k + 1;
    }
    Directive::Unknown(slice_to_vec(line))
}

/// Where the line that starts at `i` ends, its ending included: after the
/// line's content, any run of `\r`, then at most one `\n`.
pub open spec fn next_line(s: Seq<u8>, i: int) -> int {
    let c = skip_carriage(s, content_end(s, i));
    if 0 <= c < s.len() && s[c] == NEWLINE {
        c + 1
    } else {
        c
    }
}

/// The directives of the lines of `s` from position `i` on, one per line.
pub open spec fn scan_from(s: Seq<u8>, i: int) -> Seq<DirectiveView>
    decreases s.len() - i,
{
    if i < 0 || i >= s.len() || next_line(s, i) <= i || next_line(s, i) > s.len() {
        Seq::empty()
    } else {
        seq![classify(s.subrange(i, content_end(s, i)))] + scan_from(s, next_line(s, i))
    }
}

/// The directives of the lines of `s`, in order.
pub open spec fn scan(s: Seq<u8>) -> Seq<DirectiveView> {
    scan_from(s, 0)
}

proof fn lemma_content_end(s: Seq<u8>, i: int)
    requires
        0 <= i <= s.len(),
    ensures
        i <= content_end(s, i) <= s.len(),
        content_end(s, i) < s.len() ==> is_eol(s[content_end(s, i)]),
        forall|j: int| i <= j < content_end(s, i) ==> !is_eol(#[trigger] s[j]),
    decreases s.len() - i,
{
    if i < s.len() && !is_eol(s[i]) {
        lemma_content_end(s, i + 1);
    }
}

proof fn lemma_skip_carriage(s: Seq<u8>, i: int)
    requires
        0 <= i <= s.len(),
    ensures
        i <= skip_carriage(s, i) <= s.len(),
        skip_carriage(s, i) < s.len() ==> s[skip_carriage(s, i)] != CARRIAGE,
        i < s.len() && s[i] == CARRIAGE ==> skip_carriage(s, i) > i,
    decreases s.len() - i,
{
    if i < s.len() && s[i] == CARRIAGE {
        lemma_skip_carriage(s, i + 1);
    }
}

/// Every line takes at least one byte.
proof fn lemma_next_line(s: Seq<u8>, i: int)
    requires
        0 <= i < s.len(),
    ensures
        i < next_line(s, i) <= s.len(),
{
    lemma_content_end(s, i);
    let e = content_end(s, i);
    lemma_skip_carriage(s, e);
}

/// Consumes the line ending at position `start` of `input`: any run of
/// `\r`, then at most one `\n`. Returns where the next line starts and
/// whether a `\n` was consumed.
pub fn b_consume_newline(input: &[u8], start: usize) -> (r: (usize, bool))
    requires
        start <= input@.len(),
    ensures
        ({
            let c = skip_carriage(input@, start as int);
            &&& r.1 == (c < input@.len() && input@[c] == NEWLINE)
            &&& r.0 == if r.1 { c + 1 } else { c }
            &&& start <= r.0 <= input@.len()
        }),
{
    proof {
        lemma_skip_carriage(input@, start as int);
    }
    let mut j = start;
    while j < input.len() && input[j] == CARRIAGE
        invariant
            start <= j <= input@.len(),
            skip_carriage(input@, start as int) == skip_carriage(input@, j as int),
        decreases input@.len() - j,
    {
        j = j + 1;
    }
    if j < input.len() && input[j] == NEWLINE {
        (j + 1, true)
    } else {
        (j, false)
    }
}

/// The end of the line content that starts at `i`.
fn content_end_from(s: &[u8], i: usize) -> (r: usize)
    requires
        i <= s@.len(),
    ensures
        r == content_end(s@, i as int),
{
    let mut j = i;
    while j < s.len() && b_not_line_ending(s[j])
        invariant
            i <= j <= s@.len(),
            content_end(s@, i as int) == content_end(s@, j as int),
        decreases s@.len() - j,
    {
        j = j + 1;
    }
    j
}

/// Scans `input` into its directives, one per line, in order. Lines end at
/// `\n`, at a run of `\r`, or at `\r\n`.
pub fn into_directives(input: &[u8]) -> (r: Vec<Directive>)
    ensures
        r@.map_values(|d: Directive| d@) == scan(input@),
{
    let table = keyword_table();
    let mut out: Vec<Directive> = Vec::new();
    let mut pos: usize = 0;
    while pos < input.len()
        invariant
            pos <= input@.len(),
            table@.len() == KEYWORDS,
            forall|k: int| 0 <= k < KEYWORDS ==> (#[trigger] table@[k])@ == keyword(k),
            out@.map_values(|d: Directive| d@) + scan_from(input@, pos as int) == scan(input@),
        decreases input@.len() - pos,
    {
        proof {
            lemma_next_line(input@, pos as int);
            lemma_content_end(input@, pos as int);
        }
        let end = content_end_from(input, pos);
        let d = classify_line(slice_subrange(input, pos, end), &table);
        let (next, _) = b_consume_newline(input, end);
        let ghost before = out@;
        out.push(d);
        assert(out@.map_values(|d: Directive| d@) =~= before.map_values(|d: Directive| d@).push(d@));
        assert(scan_from(input@, pos as int) == seq![d@] + scan_from(input@, next as int));
        assert(out@.map_values(|d: Directive| d@) + scan_from(input@, next as int)
            =~= before.map_values(|d: Directive| d@) + scan_from(input@, pos as int));
        pos = next;
    }
    assert(scan_from(input@, pos as int) =~= Seq::<DirectiveView>::empty());
    assert(out@.map_values(|d: Directive| d@) =~= scan(input@));
    out
}

} // verus!
