use vstd::prelude::*;
use vstd::utf8::*;

use crate::delay::delay_of;
use crate::directive::{DirectiveKind, DirectiveView};
use crate::lexer::scan;
use crate::path::{needs_encoding, normalized, percent_encoded};
use crate::robots::{
    best_name, captured, default_agent, longest_agent, collected_delay, prepared, truncated, Robots, BYTES_LIMIT,
};
use crate::rules::{allowed_by, robots_txt, verdict};
use crate::rule::{rule_matches, RuleView};

verus! {

/// The precedence law does not depend on the order of the rules: two
/// arrangements of the same rules decide every path alike.
pub proof fn lemma_allowed_by_permutation(a: Seq<RuleView>, b: Seq<RuleView>, path: Seq<u8>)
    requires
        a.to_multiset() == b.to_multiset(),
    ensures
        allowed_by(a, path) == allowed_by(b, path),
{
    if allowed_by(a, path) {
        lemma_allowed_by_sub(a, b, path);
    }
    if allowed_by(b, path) {
        lemma_allowed_by_sub(b, a, path);
    }
}

proof fn lemma_same_members(a: Seq<RuleView>, b: Seq<RuleView>, i: int) -> (j: int)
    requires
        a.to_multiset() == b.to_multiset(),
        0 <= i < a.len(),
    ensures
        0 <= j < b.len(),
        b[j] == a[i],
{
    vstd::seq_lib::to_multiset_contains(a, a[i]);
    vstd::seq_lib::to_multiset_contains(b, a[i]);
    assert(a.contains(a[i]));
    choose|j: int| 0 <= j < b.len() && b[j] == a[i]
}

proof fn lemma_allowed_by_sub(a: Seq<RuleView>, b: Seq<RuleView>, path: Seq<u8>)
    requires
        a.to_multiset() == b.to_multiset(),
        allowed_by(a, path),
    ensures
        allowed_by(b, path),
{
    assert forall|i: int|
        0 <= i < b.len() && rule_matches(#[trigger] b[i], path) && !b[i].1 implies exists|j: int|
            0 <= j < b.len() && rule_matches(#[trigger] b[j], path) && b[j].1 && b[j].0.len()
                >= b[i].0.len() by {
        let ia = lemma_same_members(b, a, i);
        assert(rule_matches(a[ia], path) && !a[ia].1);
        let ja = choose|j: int|
            0 <= j < a.len() && rule_matches(#[trigger] a[j], path) && a[j].1 && a[j].0.len()
                >= a[ia].0.len();
        let jb = lemma_same_members(a, b, ja);
        assert(rule_matches(b[jb], path));
    }
}

/// A sequence of bytes none of which needs percent-encoding is its own
/// encoding.
pub proof fn lemma_plain_unencoded(s: Seq<u8>)
    requires
        forall|i: int| 0 <= i < s.len() ==> !needs_encoding(#[trigger] s[i]),
    ensures
        percent_encoded(s) == s,
    decreases s.len(),
{
    if s.len() > 0 {
        lemma_plain_unencoded(s.drop_last());
        assert(s.drop_last().push(s.last()) =~= s);
    }
}

/// `/robots.txt` is allowed by every set of rules.
pub proof fn lemma_robots_txt_allowed(rs: Seq<RuleView>)
    ensures
        verdict(rs, robots_txt()),
{
    let t = robots_txt();
    assert forall|i: int| 0 <= i < t.len() implies !needs_encoding(#[trigger] t[i]) by {}
    lemma_plain_unencoded(t);
    assert(normalized(t) == t);
}

/// A file parsed into an object with rules allows `/robots.txt`, whatever
/// its rules.
pub proof fn lemma_robots_txt_always_allowed(r: Robots)
    requires
        r.always() is None,
    ensures
        r.decides(robots_txt()),
{
    lemma_robots_txt_allowed(r.rule_set());
}

/// A `Crawl-delay` line of the group of `agent` among `ds[..n]` whose value
/// is a number of seconds.
pub open spec fn group_delay_line(ds: Seq<DirectiveView>, agent: Seq<u8>, n: int, j: int) -> bool {
    &&& 0 <= j < n
    &&& ds[j].0 == DirectiveKind::CrawlDelay
    &&& captured(ds, agent, j)
    &&& delay_of(ds[j].1) is Some
}

/// The crawl delay of a group is the smallest of its delays: there is one
/// exactly where the group has a valid `Crawl-delay` line, it is the value
/// of one of them, and no such line gives less.
pub proof fn lemma_delay_is_minimum(ds: Seq<DirectiveView>, agent: Seq<u8>, n: int)
    requires
        0 <= n <= ds.len(),
    ensures
        collected_delay(ds, agent, n) is Some <==> exists|j: int| group_delay_line(ds, agent, n, j),
        collected_delay(ds, agent, n) matches Some(d) ==> (exists|j: int|
            group_delay_line(ds, agent, n, j) && delay_of(ds[j].1) == Some(d)),
        collected_delay(ds, agent, n) matches Some(d) ==> (forall|j: int|
            group_delay_line(ds, agent, n, j) ==> d.nanos <= delay_of(ds[j].1)->0.nanos),
    decreases n,
{
    if n > 0 {
        lemma_delay_is_minimum(ds, agent, n - 1);
        assert forall|j: int| group_delay_line(ds, agent, n - 1, j) implies group_delay_line(
            ds,
            agent,
            n,
            j,
        ) by {}
        assert forall|j: int| group_delay_line(ds, agent, n, j) && j != n - 1 implies group_delay_line(
            ds,
            agent,
            n - 1,
            j,
        ) by {}
        if group_delay_line(ds, agent, n, n - 1) {
            let prev = collected_delay(ds, agent, n - 1);
            if prev is Some {
                let jp = choose|j: int|
                    group_delay_line(ds, agent, n - 1, j) && delay_of(ds[j].1) == prev;
                assert(group_delay_line(ds, agent, n, jp));
            }
        } else {
            let prev = collected_delay(ds, agent, n - 1);
            if prev is Some {
                let jp = choose|j: int|
                    group_delay_line(ds, agent, n - 1, j) && delay_of(ds[j].1) == prev;
                assert(group_delay_line(ds, agent, n, jp));
            }
            if exists|j: int| group_delay_line(ds, agent, n, j) {
                let j = choose|j: int| group_delay_line(ds, agent, n, j);
                assert(group_delay_line(ds, agent, n - 1, j));
            }
        }
    }
}

/// Parsing is deterministic: two objects parsed from the same bytes for the
/// same crawler name decide every path alike, and agree on the group, the
/// crawl delay and the sitemaps.
pub proof fn lemma_parse_deterministic(
    a: Robots,
    b: Robots,
    bytes: Seq<u8>,
    user_agent: Seq<char>,
    path: Seq<u8>,
)
    requires
        a.built_from(scan(prepared(bytes)), user_agent),
        b.built_from(scan(prepared(bytes)), user_agent),
    ensures
        a.decides(path) == b.decides(path),
        a.agent() == b.agent(),
        a.spec_delay() == b.spec_delay(),
        a.sitemap_list() == b.sitemap_list(),
{
    lemma_allowed_by_permutation(a.rule_set(), b.rule_set(), normalized(path));
    encode_utf8_decode_utf8(a.agent());
    encode_utf8_decode_utf8(b.agent());
}

/// An input longer than [`BYTES_LIMIT`] is read as its first
/// [`BYTES_LIMIT`] bytes: what follows is never scanned.
pub proof fn lemma_oversized_input(b: Seq<u8>)
    requires
        b.len() > BYTES_LIMIT,
    ensures
        prepared(b) == prepared(b.subrange(0, BYTES_LIMIT as int)),
        truncated(b).len() == BYTES_LIMIT,
{
}

/// The group that applies is the most specific one declared: among the
/// normalized declared names, the longest that is a prefix of the requested
/// name, and the wildcard group `*` where none is.
pub proof fn lemma_resolved_is_longest(names: Seq<Seq<u8>>, req: Seq<u8>, n: int)
    requires
        0 <= n <= names.len(),
    ensures
        best_name(names, req, n) is None <==> !exists|i: int|
            0 <= i < n && (#[trigger] names[i]).is_prefix_of(req),
        best_name(names, req, n) matches Some(b) ==> (exists|i: int|
            0 <= i < n && (#[trigger] names[i]).is_prefix_of(req) && names[i] == b),
        best_name(names, req, n) matches Some(b) ==> (forall|i: int|
            0 <= i < n && (#[trigger] names[i]).is_prefix_of(req) ==> names[i].len() <= b.len()),
        n == names.len() ==> (longest_agent(names, req) == default_agent() || exists|i: int|
            0 <= i < n && names[i] == longest_agent(names, req)),
    decreases n,
{
    if n > 0 {
        lemma_resolved_is_longest(names, req, n - 1);
        let prev = best_name(names, req, n - 1);
        let cur = best_name(names, req, n);
        if prev is Some {
            let ip = choose|i: int|
                0 <= i < n - 1 && (#[trigger] names[i]).is_prefix_of(req) && names[i] == prev->0;
            assert(0 <= ip < n);
        }
        if exists|i: int| 0 <= i < n && (#[trigger] names[i]).is_prefix_of(req) {
            if !names[n - 1].is_prefix_of(req) {
                let i = choose|i: int| 0 <= i < n && (#[trigger] names[i]).is_prefix_of(req);
                assert(i < n - 1);
            }
        }
        if cur is Some {
            let b = cur->0;
            assert forall|i: int| 0 <= i < n && (#[trigger] names[i]).is_prefix_of(req) implies names[i].len()
                <= b.len() by {
                if i < n - 1 {
                    assert(prev is Some);
                }
            }
            if names[n - 1].is_prefix_of(req) && (prev is None || prev->0.len() <= names[n - 1].len()) {
                assert(names[n - 1] == b);
            } else {
                assert(prev == cur);
            }
        }
    }
}

} // verus!
