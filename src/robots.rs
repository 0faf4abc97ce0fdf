use vstd::prelude::*;
use vstd::slice::slice_to_vec;
use vstd::utf8::*;

use crate::agent::{agent_bytes, agent_of, normalized_agent, try_agent};
use crate::delay::{delay_of, try_delay, Delay};
use crate::directive::{Directive, DirectiveKind, DirectiveView};
use crate::laws::lemma_resolved_is_longest;
use crate::lexer::{into_directives, scan, NEWLINE};
use crate::path::normalized;
use crate::rule::{pattern_compiles, Rule, RuleView};
use crate::rules::{rule_views, verdict, Rules};
use crate::text::{lemma_ascii_utf8, string_from_utf8};

verus! {

/// The serialization of the absolute URL parsed from `s`; `None` where `s`
/// is not an absolute URL.
pub uninterp spec fn parsed_url(s: Seq<char>) -> Option<Seq<char>>;

/// Relies on `url::Url::parse` and `url::Url::as_str`: parses `s` as an
/// absolute URL and gives its serialization.
#[verifier::external_body]
fn parse_url(s: &str) -> (r: Option<String>)
    ensures
        r is Some <==> parsed_url(s@) is Some,
        r matches Some(t) ==> parsed_url(s@) == Some(t@),
{
    match url::Url::parse(s) {
        Ok(u) => Some(u.as_str().to_string()),
        Err(_) => None,
    }
}

/// The models of a sequence of directives.
pub open spec fn directive_views(ds: Seq<Directive>) -> Seq<DirectiveView> {
    ds.map_values(|d: Directive| d@)
}

/// The models of a sequence of strings.
pub open spec fn string_views(ss: Seq<String>) -> Seq<Seq<char>> {
    ss.map_values(|s: String| s@)
}

/// The name of the wildcard group, `*`.
pub open spec fn default_agent() -> Seq<u8> {
    seq![42u8]
}

/// The sitemap URL written by the raw value `v`, serialized.
pub open spec fn sitemap_of(v: Seq<u8>) -> Option<Seq<char>> {
    if valid_utf8(v) {
        parsed_url(decode_utf8(v))
    } else {
        None
    }
}

/// The normalized names of the `User-agent` lines of `ds[..n]` that are
/// UTF-8, in file order.
pub open spec fn agent_names(ds: Seq<DirectiveView>, n: int) -> Seq<Seq<u8>>
    decreases n,
{
    if n <= 0 {
        Seq::empty()
    } else {
        let prev = agent_names(ds, n - 1);
        let d = ds[n - 1];
        if d.0 == DirectiveKind::UserAgent && agent_of(d.1) is Some {
            prev.push(agent_of(d.1)->0)
        } else {
            prev
        }
    }
}

/// The longest of `names[..n]` that is a prefix of the requested name `req`
/// (the later one among equals).
pub open spec fn best_name(names: Seq<Seq<u8>>, req: Seq<u8>, n: int) -> Option<Seq<u8>>
    decreases n,
{
    if n <= 0 {
        None
    } else {
        let prev = best_name(names, req, n - 1);
        let x = names[n - 1];
        if x.is_prefix_of(req) && (prev is None || prev->0.len() <= x.len()) {
            Some(x)
        } else {
            prev
        }
    }
}

/// The group among the declared names `names` that applies to the
/// requested name `req`: the longest name that is a prefix of it, else the
/// wildcard group.
pub open spec fn longest_agent(names: Seq<Seq<u8>>, req: Seq<u8>) -> Seq<u8> {
    match best_name(names, req, names.len() as int) {
        Some(n) => n,
        None => default_agent(),
    }
}

/// The group that applies to the normalized requested name `req`: the
/// longest normalized `User-agent` name of `ds` that is a prefix of it, else
/// the wildcard group.
pub open spec fn resolved_agent(ds: Seq<DirectiveView>, req: Seq<u8>) -> Seq<u8> {
    longest_agent(agent_names(ds, ds.len() as int), req)
}

/// The models of a sequence of byte vectors.
pub open spec fn byte_views(vs: Seq<Vec<u8>>) -> Seq<Seq<u8>> {
    vs.map_values(|v: Vec<u8>| v@)
}

/// The state of the group collector before line `n`: whether rule lines are
/// taken, and whether the previous lines form a run of `User-agent` lines.
/// Lines before any group are taken for the wildcard group; a run of
/// `User-agent` lines is taken where one of its names is `agent` (a name
/// that is not UTF-8 equals none); an `Allow`, `Disallow` or `Crawl-delay`
/// line ends the run; `Sitemap` and unknown lines change nothing.
pub open spec fn capture_state(ds: Seq<DirectiveView>, agent: Seq<u8>, n: int) -> (bool, bool)
    decreases n,
{
    if n <= 0 {
        (agent == default_agent(), false)
    } else {
        let (taking, in_run) = capture_state(ds, agent, n - 1);
        let d = ds[n - 1];
        match d.0 {
            DirectiveKind::UserAgent => (
                if !in_run || !taking {
                    agent_of(d.1) == Some(agent)
                } else {
                    taking
                },
                true,
            ),
            DirectiveKind::Sitemap => (taking, in_run),
            DirectiveKind::Unknown => (taking, in_run),
            _ => (taking, false),
        }
    }
}

/// Line `i` belongs to the group of `agent`.
pub open spec fn captured(ds: Seq<DirectiveView>, agent: Seq<u8>, i: int) -> bool {
    capture_state(ds, agent, i).0
}

/// The rules of the group of `agent` among `ds[..n]`, in file order: each
/// `Allow` or `Disallow` line of the group whose value is UTF-8 and whose
/// normalized pattern compiles.
pub open spec fn collected_rules(ds: Seq<DirectiveView>, agent: Seq<u8>, n: int) -> Seq<RuleView>
    decreases n,
{
    if n <= 0 {
        Seq::empty()
    } else {
        let prev = collected_rules(ds, agent, n - 1);
        let d = ds[n - 1];
        if (d.0 == DirectiveKind::Allow || d.0 == DirectiveKind::Disallow) && captured(
            ds,
            agent,
            n - 1,
        ) && valid_utf8(d.1) && pattern_compiles(normalized(d.1)) {
            prev.push((normalized(d.1), d.0 == DirectiveKind::Allow))
        } else {
            prev
        }
    }
}

/// The shorter of an optional delay and a delay.
pub open spec fn min_delay(a: Option<Delay>, b: Delay) -> Delay {
    match a {
        Some(x) => if x.nanos <= b.nanos {
            x
        } else {
            b
        },
        None => b,
    }
}

/// The shortest delay among the `Crawl-delay` lines of the group of `agent`
/// in `ds[..n]` whose value is a number of seconds.
pub open spec fn collected_delay(ds: Seq<DirectiveView>, agent: Seq<u8>, n: int) -> Option<Delay>
    decreases n,
{
    if n <= 0 {
        None
    } else {
        let prev = collected_delay(ds, agent, n - 1);
        let d = ds[n - 1];
        if d.0 == DirectiveKind::CrawlDelay && captured(ds, agent, n - 1) && delay_of(d.1) is Some {
            Some(min_delay(prev, delay_of(d.1)->0))
        } else {
            prev
        }
    }
}

/// The sitemaps of `ds[..n]`, whatever their group, in file order.
pub open spec fn collected_sitemaps(ds: Seq<DirectiveView>, n: int) -> Seq<Seq<char>>
    decreases n,
{
    if n <= 0 {
        Seq::empty()
    } else {
        let prev = collected_sitemaps(ds, n - 1);
        let d = ds[n - 1];
        if d.0 == DirectiveKind::Sitemap && sitemap_of(d.1) is Some {
            prev.push(sitemap_of(d.1)->0)
        } else {
            prev
        }
    }
}

/// Every collected name is UTF-8.
proof fn lemma_agent_names_utf8(ds: Seq<DirectiveView>, n: int)
    ensures
        forall|i: int| 0 <= i < agent_names(ds, n).len() ==> valid_utf8(#[trigger] agent_names(ds, n)[i]),
    decreases n,
{
    if n > 0 {
        lemma_agent_names_utf8(ds, n - 1);
        let d = ds[n - 1];
        let prev = agent_names(ds, n - 1);
        if d.0 == DirectiveKind::UserAgent && agent_of(d.1) is Some {
            encode_utf8_valid_utf8(normalized_agent(decode_utf8(d.1)));
            let cur = prev.push(agent_of(d.1)->0);
            assert forall|i: int| 0 <= i < cur.len() implies valid_utf8(#[trigger] cur[i]) by {
                if i < prev.len() {
                    assert(cur[i] == prev[i]);
                }
            }
        }
    }
}

/// The group name that the resolution picks is UTF-8.
proof fn lemma_resolved_agent_utf8(ds: Seq<DirectiveView>, req: Seq<u8>)
    ensures
        valid_utf8(resolved_agent(ds, req)),
{
    let names = agent_names(ds, ds.len() as int);
    lemma_agent_names_utf8(ds, ds.len() as int);
    lemma_resolved_is_longest(names, req, names.len() as int);
    assert(default_agent()[0] < 128);
    lemma_ascii_utf8(default_agent());
}

/// Parses the value of a `Sitemap` line as an absolute URL.
pub fn try_sitemaps(u: &[u8]) -> (r: Option<String>)
    ensures
        r is Some <==> sitemap_of(u@) is Some,
        r matches Some(s) ==> sitemap_of(u@) == Some(s@),
{
    match string_from_utf8(slice_to_vec(u)) {
        Ok(s) => parse_url(s.as_str()),
        Err(_) => None,
    }
}

/// Builds the rule of an `Allow` (`allow`) or `Disallow` line from its
/// value; `None` where the value is not UTF-8 or its pattern does not
/// compile.
pub fn try_rule(u: &[u8], allow: bool) -> (r: Option<Rule>)
    ensures
        r is Some <==> valid_utf8(u@) && pattern_compiles(normalized(u@)),
        r matches Some(rule) ==> rule.wf() && rule@ == (normalized(u@), allow),
{
    match string_from_utf8(slice_to_vec(u)) {
        Ok(s) => {
            proof {
                decode_utf8_encode_utf8(u@);
            }
            match Rule::new(s.as_str(), allow) {
                Ok(rule) => Some(rule),
                Err(_) => None,
            }
        },
        Err(_) => None,
    }
}

/// Whether two byte strings are equal.
pub fn bytes_eq(a: &[u8], b: &[u8]) -> (r: bool)
    ensures
        r == (a@ == b@),
{
    if a.len() != b.len() {
        return false;
    }
    let mut i: usize = 0;
    while i < a.len()
        invariant
            i <= a@.len() == b@.len(),
            forall|j: int| 0 <= j < i ==> a@[j] == b@[j],
        decreases a@.len() - i,
    {
        if a[i] != b[i] {
            return false;
        }
        i = i + 1;
    }
    assert(a@ =~= b@);
    true
}

/// Whether `prefix` is a prefix of `s`.
fn is_prefix(prefix: &[u8], s: &[u8]) -> (r: bool)
    ensures
        r == prefix@.is_prefix_of(s@),
{
    crate::rule::starts_with(s, prefix)
}

/// Picks, among the normalized declared names `names`, the group that
/// applies to the normalized requested name `req`: the longest name that is
/// a prefix of it (the later one among equals), else `*`.
pub fn pick_agent(names: &Vec<Vec<u8>>, req: &[u8]) -> (r: Vec<u8>)
    ensures
        r@ == longest_agent(byte_views(names@), req@),
{
    let ghost ns = byte_views(names@);
    let mut best: Option<usize> = None;
    let mut i: usize = 0;
    while i < names.len()
        invariant
            i <= names@.len(),
            ns == byte_views(names@),
            match best {
                Some(k) => k < i && best_name(ns, req@, i as int) == Some(ns[k as int]),
                None => best_name(ns, req@, i as int) is None,
            },
        decreases names@.len() - i,
    {
        let name = &names[i];
        assert(ns[i as int] == name@);
        if is_prefix(name.as_slice(), req) {
            let longer = match best {
                Some(k) => names[k].len() <= name.len(),
                None => true,
            };
            if longer {
                best = Some(i);
            }
        }
        i = i + 1;
    }
    match best {
        Some(k) => slice_to_vec(names[k].as_slice()),
        None => {
            let mut v: Vec<u8> = Vec::new();
            v.push(42);
            assert(v@ =~= default_agent());
            v
        },
    }
}

/// Finds the group that applies to the normalized requested name `req`: the
/// longest normalized `User-agent` name that is a prefix of it, else `*`.
pub fn find_agent(directives: &[Directive], req: &[u8]) -> (r: Vec<u8>)
    ensures
        r@ == resolved_agent(directive_views(directives@), req@),
        valid_utf8(r@),
{
    let ghost ds = directive_views(directives@);
    proof {
        lemma_resolved_agent_utf8(ds, req@);
    }
    let mut names: Vec<Vec<u8>> = Vec::new();
    let mut i: usize = 0;
    while i < directives.len()
        invariant
            i <= directives@.len(),
            ds == directive_views(directives@),
            byte_views(names@) == agent_names(ds, i as int),
        decreases directives@.len() - i,
    {
        let d = &directives[i];
        assert(ds[i as int] == d@);
        let ghost before = names@;
        match d {
            Directive::UserAgent(u) => {
                match try_agent(u.as_slice()) {
                    Some(name) => {
                        names.push(name);
                        assert(byte_views(names@) =~= byte_views(before).push(names@.last()@));
                    },
                    None => {},
                }
            },
            _ => {},
        }
        i = i + 1;
    }
    pick_agent(&names, req)
}

/// What a [`Robots`] decides with: the rules of its group, or one verdict
/// for every path.
#[derive(Debug)]
enum RobotsRules {
    Rules(Rules),
    Always(bool),
}

/// The decisions of a `robots.txt` file for one user agent: the group that
/// applies, its rules (or one verdict for every path), and the sitemaps.
#[derive(Debug)]
pub struct Robots {
    user_agent: String,
    rules: RobotsRules,
    sitemaps: Vec<String>,
}

impl Robots {
    /// The rules are well formed.
    pub closed spec fn wf(&self) -> bool {
        match self.rules {
            RobotsRules::Rules(r) => r.wf(),
            RobotsRules::Always(_) => true,
        }
    }

    /// The name of the group that applies.
    pub closed spec fn agent(&self) -> Seq<char> {
        self.user_agent@
    }

    /// The verdict for every path, where there is one.
    pub closed spec fn always(&self) -> Option<bool> {
        match self.rules {
            RobotsRules::Rules(_) => None,
            RobotsRules::Always(b) => Some(b),
        }
    }

    /// The rules of the group, in precedence order (empty where there is
    /// one verdict for every path).
    pub closed spec fn rule_set(&self) -> Seq<RuleView> {
        match self.rules {
            RobotsRules::Rules(r) => r@,
            RobotsRules::Always(_) => Seq::empty(),
        }
    }

    /// The crawl delay of the group.
    pub closed spec fn spec_delay(&self) -> Option<Delay> {
        match self.rules {
            RobotsRules::Rules(r) => r.spec_delay(),
            RobotsRules::Always(_) => None,
        }
    }

    /// The sitemaps, serialized.
    pub closed spec fn sitemap_list(&self) -> Seq<Seq<char>> {
        string_views(self.sitemaps@)
    }

    /// What the object decides for `path`.
    pub open spec fn decides(&self, path: Seq<u8>) -> bool {
        match self.always() {
            Some(b) => b,
            None => verdict(self.rule_set(), path),
        }
    }

    /// This object holds what the directives `ds` give the crawler named
    /// `user_agent`: the group that applies, that group's rules (in some
    /// order) and crawl delay, and all sitemaps.
    pub open spec fn built_from(&self, ds: Seq<DirectiveView>, user_agent: Seq<char>) -> bool {
        let agent = resolved_agent(ds, encode_utf8(normalized_agent(user_agent)));
        &&& self.wf()
        &&& encode_utf8(self.agent()) == agent
        &&& self.always() is None
        &&& self.rule_set().to_multiset() == collected_rules(ds, agent, ds.len() as int).to_multiset()
        &&& self.spec_delay() == collected_delay(ds, agent, ds.len() as int)
        &&& self.sitemap_list() == collected_sitemaps(ds, ds.len() as int)
    }

    /// Collects, for the crawler named `user_agent`, the rules and crawl
    /// delay of the group that applies to it, and all sitemaps.
    pub fn from_directives(directives: &[Directive], user_agent: &str) -> (r: Robots)
        ensures
            r.built_from(directive_views(directives@), user_agent@),
    {
        let ghost ds = directive_views(directives@);
        let req = agent_bytes(user_agent);
        let agent = find_agent(directives, req.as_slice());
        let star: Vec<u8> = vec![42u8];
        assert(star@ =~= default_agent());
        let mut taking = bytes_eq(agent.as_slice(), star.as_slice());
        let mut in_run = false;
        let mut rules: Vec<Rule> = Vec::new();
        let mut delay: Option<Delay> = None;
        let mut sitemaps: Vec<String> = Vec::new();
        let mut i: usize = 0;
        while i < directives.len()
            invariant
                i <= directives@.len(),
                ds == directive_views(directives@),
                (taking, in_run) == capture_state(ds, agent@, i as int),
                forall|j: int| 0 <= j < rules@.len() ==> (#[trigger] rules@[j]).wf(),
                rule_views(rules@) == collected_rules(ds, agent@, i as int),
                delay == collected_delay(ds, agent@, i as int),
                string_views(sitemaps@) == collected_sitemaps(ds, i as int),
            decreases directives@.len() - i,
        {
            let d = &directives[i];
            assert(ds[i as int] == d@);
            let ghost old_rules = rules@;
            let ghost old_sitemaps = sitemaps@;
            match d {
                Directive::UserAgent(u) => {
                    if !in_run || !taking {
                        taking = match try_agent(u.as_slice()) {
                            Some(name) => bytes_eq(name.as_slice(), agent.as_slice()),
                            None => false,
                        };
                    }
                    in_run = true;
                },
                Directive::Sitemap(u) => {
                    match try_sitemaps(u.as_slice()) {
                        Some(s) => {
                            sitemaps.push(s);
                            assert(string_views(sitemaps@) =~= string_views(old_sitemaps).push(
                                sitemaps@.last()@,
                            ));
                        },
                        None => {},
                    }
                },
                Directive::Unknown(_) => {},
                Directive::Allow(u) => {
                    in_run = false;
                    if taking {
                        match try_rule(u.as_slice(), true) {
                            Some(rule) => {
                                rules.push(rule);
                                assert(rule_views(rules@) =~= rule_views(old_rules).push(
                                    rules@.last()@,
                                ));
                            },
                            None => {},
                        }
                    }
                },
                Directive::Disallow(u) => {
                    in_run = false;
                    if taking {
                        match try_rule(u.as_slice(), false) {
                            Some(rule) => {
                                rules.push(rule);
                                assert(rule_views(rules@) =~= rule_views(old_rules).push(
                                    rules@.last()@,
                                ));
                            },
                            None => {},
                        }
                    }
                },
                Directive::CrawlDelay(u) => {
                    in_run = false;
                    if taking {
                        match try_delay(u.as_slice()) {
                            Some(v) => {
                                delay = Some(
                                    match delay {
                                        Some(c) => c.min(v),
                                        None => v,
                                    },
                                );
                            },
                            None => {},
                        }
                    }
                },
            }
            i = i + 1;
        }
        let set = Rules::new(rules, delay);
        let name = agent_string(agent);
        Robots { user_agent: name, rules: RobotsRules::Rules(set), sitemaps }
    }
}

/// How the `robots.txt` file was retrieved.
#[derive(Debug, Clone, Copy)]
pub enum AccessResult<'a> {
    /// The file was served: its bytes.
    Successful(&'a [u8]),
    /// The file was not reached after redirects; treated as unavailable.
    Redirect,
    /// No valid file exists: the site is fully allowed.
    Unavailable,
    /// The file could not be served: the site is fully disallowed.
    Unreachable,
}

impl Robots {
    /// This object gives the verdict `always` to every path, for the crawler
    /// named `user_agent` (trimmed, in lower case), with no crawl delay and
    /// no sitemap.
    pub open spec fn is_always_for(&self, always: bool, user_agent: Seq<char>) -> bool {
        &&& self.wf()
        &&& self.always() == Some(always)
        &&& self.agent() == normalized_agent(user_agent)
        &&& self.spec_delay() is None
        &&& self.sitemap_list() == Seq::<Seq<char>>::empty()
    }

    /// An object with one verdict, `always`, for every path, for the crawler
    /// named `user_agent` (trimmed, in lower case).
    pub fn from_always(always: bool, user_agent: &str) -> (r: Robots)
        ensures
            r.is_always_for(always, user_agent@),
    {
        let sitemaps: Vec<String> = Vec::new();
        assert(string_views(sitemaps@) =~= Seq::<Seq<char>>::empty());
        Robots {
            user_agent: crate::agent::UserAgent::normalize(user_agent),
            rules: RobotsRules::Always(always),
            sitemaps,
        }
    }

    /// The name of the group used for matching.
    pub fn user_agent(&self) -> (r: &str)
        ensures
            r@ == self.agent(),
    {
        self.user_agent.as_str()
    }

    /// Whether `path` (relative to the site root) may be fetched.
    pub fn is_allowed(&self, path: &str) -> (r: bool)
        requires
            self.wf(),
        ensures
            r == self.decides(encode_utf8(path@)),
    {
        match &self.rules {
            RobotsRules::Rules(rules) => rules.is_match(path),
            RobotsRules::Always(always) => *always,
        }
    }

    /// `Some(verdict)` where every path gets the same verdict regardless of
    /// rules.
    pub fn is_always(&self) -> (r: Option<bool>)
        ensures
            r == self.always(),
    {
        match &self.rules {
            RobotsRules::Rules(_) => None,
            RobotsRules::Always(always) => Some(*always),
        }
    }

    /// The crawl delay of the group; `None` where none was given or the
    /// object has one verdict for every path.
    pub fn crawl_delay(&self) -> (r: Option<Delay>)
        ensures
            r == self.spec_delay(),
    {
        match &self.rules {
            RobotsRules::Rules(rules) => rules.delay(),
            RobotsRules::Always(_) => None,
        }
    }

    /// All sitemaps of the file, serialized, in file order.
    pub fn sitemaps(&self) -> (r: &Vec<String>)
        ensures
            string_views(r@) == self.sitemap_list(),
    {
        &self.sitemaps
    }
}

/// The largest number of bytes of a `robots.txt` file that are read; the
/// rest is ignored.
pub const BYTES_LIMIT: usize = 512000;

/// The first [`BYTES_LIMIT`] bytes of `b`.
pub open spec fn truncated(b: Seq<u8>) -> Seq<u8> {
    if b.len() > BYTES_LIMIT {
        b.subrange(0, BYTES_LIMIT as int)
    } else {
        b
    }
}

/// `b` without a leading UTF-8 byte-order mark.
pub open spec fn without_bom(b: Seq<u8>) -> Seq<u8> {
    if b.len() >= 3 && b[0] == 0xEF && b[1] == 0xBB && b[2] == 0xBF {
        b.subrange(3, b.len() as int)
    } else {
        b
    }
}

/// `b` with every NUL byte read as a line break.
pub open spec fn nul_as_newline(b: Seq<u8>) -> Seq<u8> {
    b.map_values(|c: u8| if c == 0 { NEWLINE } else { c })
}

/// The bytes that are scanned for a file: at most [`BYTES_LIMIT`] of them,
/// without a byte-order mark, NUL bytes read as line breaks.
pub open spec fn prepared(b: Seq<u8>) -> Seq<u8> {
    nul_as_newline(without_bom(truncated(b)))
}

/// The bytes that are scanned for the file `robots`.
pub fn prepare(robots: &[u8]) -> (r: Vec<u8>)
    ensures
        r@ == prepared(robots@),
{
    let limit = if robots.len() > BYTES_LIMIT {
        BYTES_LIMIT
    } else {
        robots.len()
    };
    let start: usize = if limit >= 3 && robots[0] == 0xEF && robots[1] == 0xBB && robots[2] == 0xBF {
        3
    } else {
        0
    };
    let ghost t = truncated(robots@);
    assert(t =~= robots@.subrange(0, limit as int));
    let mut out: Vec<u8> = Vec::new();
    let mut i = start;
    while i < limit
        invariant
            start <= i <= limit <= robots@.len(),
            t == robots@.subrange(0, limit as int),
            without_bom(t) =~= robots@.subrange(start as int, limit as int),
            out@ =~= nul_as_newline(robots@.subrange(start as int, i as int)),
        decreases limit - i,
    {
        let c = robots[i];
        out.push(if c == 0 { NEWLINE } else { c });
        i = i + 1;
    }
    out
}

impl Robots {
    /// Parses the `robots.txt` bytes `robots` for the crawler named
    /// `user_agent`. Bytes beyond [`BYTES_LIMIT`] are ignored, a leading
    /// byte-order mark is dropped and NUL bytes end lines; parsing never
    /// fails.
    pub fn from_slice(robots: &[u8], user_agent: &str) -> (r: Robots)
        ensures
            r.built_from(scan(prepared(robots@)), user_agent@),
    {
        let bytes = prepare(robots);
        let directives = into_directives(bytes.as_slice());
        assert(directive_views(directives@) == scan(prepared(robots@)));
        Robots::from_directives(directives.as_slice(), user_agent)
    }

    /// Parses the `robots.txt` text `robots` for the crawler named
    /// `user_agent`.
    pub fn from_string(robots: &str, user_agent: &str) -> (r: Robots)
        ensures
            r.built_from(scan(prepared(encode_utf8(robots@))), user_agent@),
    {
        Robots::from_slice(robots.as_bytes(), user_agent)
    }

    /// The object for a retrieval outcome: a served file is parsed; a file
    /// not reached after redirects, or missing, allows everything; a file
    /// that could not be served disallows everything.
    pub fn from_access(access: AccessResult, user_agent: &str) -> (r: Robots)
        ensures
            match access {
                AccessResult::Successful(b) => r.built_from(scan(prepared(b@)), user_agent@),
                AccessResult::Redirect => r.is_always_for(true, user_agent@),
                AccessResult::Unavailable => r.is_always_for(true, user_agent@),
                AccessResult::Unreachable => r.is_always_for(false, user_agent@),
            },
    {
        match access {
            AccessResult::Successful(txt) => Robots::from_slice(txt, user_agent),
            AccessResult::Redirect => Robots::from_always(true, user_agent),
            AccessResult::Unavailable => Robots::from_always(true, user_agent),
            AccessResult::Unreachable => Robots::from_always(false, user_agent),
        }
    }
}

/// The string whose UTF-8 encoding is `bytes`.
fn agent_string(bytes: Vec<u8>) -> (r: String)
    requires
        valid_utf8(bytes@),
    ensures
        encode_utf8(r@) == bytes@,
{
    let ghost b = bytes@;
    match string_from_utf8(bytes) {
        Ok(s) => {
            proof {
                decode_utf8_encode_utf8(b);
            }
            s
        },
        Err(_) => {
            assert(false);
            String::new()
        },
    }
}

} // verus!
