use vstd::prelude::*;
use vstd::utf8::*;

use crate::delay::Delay;
use crate::glob::{lemma_visible_plain, plain_haystack};
use crate::path::{normalize_bytes, normalized};
use crate::rule::{rule_matches, Rule, RuleView};

verus! {

/// The models of a sequence of rules.
pub open spec fn rule_views(rs: Seq<Rule>) -> Seq<RuleView> {
    rs.map_values(|r: Rule| r@)
}

/// Rule `a` is strictly more specific than rule `b`: its pattern is longer,
/// or as long and `a` allows where `b` disallows.
pub open spec fn precedes(a: RuleView, b: RuleView) -> bool {
    a.0.len() > b.0.len() || (a.0.len() == b.0.len() && a.1 && !b.1)
}

/// No rule is strictly more specific than one before it.
pub open spec fn sorted_by_precedence(rs: Seq<RuleView>) -> bool {
    forall|i: int, j: int| 0 <= i < j < rs.len() ==> !precedes(#[trigger] rs[j], #[trigger] rs[i])
}

/// The precedence law on a set of rules and a normalized path: the path is
/// allowed unless some matching disallow rule is longer than every matching
/// allow rule. So the longest matching pattern decides, an allow rule winning
/// a tie of lengths, and a path that no rule matches is allowed.
pub open spec fn allowed_by(rs: Seq<RuleView>, path: Seq<u8>) -> bool {
    forall|i: int|
        0 <= i < rs.len() && rule_matches(#[trigger] rs[i], path) && !rs[i].1 ==> exists|j: int|
            0 <= j < rs.len() && rule_matches(#[trigger] rs[j], path) && rs[j].1 && rs[j].0.len()
                >= rs[i].0.len()
}

/// The bytes of `/robots.txt`.
pub open spec fn robots_txt() -> Seq<u8> {
    seq![47u8, 114, 111, 98, 111, 116, 115, 46, 116, 120, 116]
}

/// The verdict of a set of rules on a path, as given: `/robots.txt` is
/// always allowed; any other path goes by the precedence law on its
/// normalized form.
pub open spec fn verdict(rs: Seq<RuleView>, path: Seq<u8>) -> bool {
    let n = normalized(path);
    n == robots_txt() || allowed_by(rs, n)
}

/// Where the rules are sorted, the first rule that matches gives the verdict
/// of the precedence law.
pub proof fn lemma_first_match_decides(rs: Seq<RuleView>, path: Seq<u8>, i: int)
    requires
        sorted_by_precedence(rs),
        0 <= i < rs.len(),
        rule_matches(rs[i], path),
        forall|j: int| 0 <= j < i ==> !rule_matches(#[trigger] rs[j], path),
    ensures
        allowed_by(rs, path) == rs[i].1,
        forall|j: int|
            0 <= j < rs.len() && rule_matches(#[trigger] rs[j], path) ==> rs[j].0.len() <= rs[i].0.len()
                && (rs[j].0.len() == rs[i].0.len() && rs[j].1 ==> rs[i].1),
{
    assert forall|j: int|
        0 <= j < rs.len() && rule_matches(#[trigger] rs[j], path) implies rs[j].0.len()
            <= rs[i].0.len() && (rs[j].0.len() == rs[i].0.len() && rs[j].1 ==> rs[i].1) by {
        if j > i {
            assert(!precedes(rs[j], rs[i]));
        } else if j < i {
            assert(!rule_matches(rs[j], path));
        }
    }
    if rs[i].1 {
        assert forall|k: int|
            0 <= k < rs.len() && rule_matches(#[trigger] rs[k], path) && !rs[k].1 implies exists|j: int|
                0 <= j < rs.len() && rule_matches(#[trigger] rs[j], path) && rs[j].1 && rs[j].0.len()
                    >= rs[k].0.len() by {
            assert(rule_matches(rs[i], path) && rs[i].1 && rs[i].0.len() >= rs[k].0.len());
        }
    } else {
        assert(!allowed_by(rs, path)) by {
            if allowed_by(rs, path) {
                let j = choose|j: int|
                    0 <= j < rs.len() && rule_matches(#[trigger] rs[j], path) && rs[j].1
                        && rs[j].0.len() >= rs[i].0.len();
                assert(j != i);
            }
        }
    }
}

/// The rules of one group, sorted by precedence, with the group's crawl
/// delay.
#[derive(Debug)]
pub struct Rules {
    rules: Vec<Rule>,
    delay: Option<Delay>,
}

impl View for Rules {
    type V = Seq<RuleView>;

    closed spec fn view(&self) -> Seq<RuleView> {
        rule_views(self.rules@)
    }
}

impl Rules {
    /// Every rule is well formed and the rules are sorted by precedence.
    pub closed spec fn wf(&self) -> bool {
        &&& forall|i: int| 0 <= i < self.rules@.len() ==> (#[trigger] self.rules@[i]).wf()
        &&& sorted_by_precedence(self@)
    }

    /// The crawl delay of the group.
    pub closed spec fn spec_delay(&self) -> Option<Delay> {
        self.delay
    }

    /// Creates the rule set: the given rules reordered by precedence (a
    /// stable sort: longer patterns first, allow before disallow on equal
    /// lengths), with the given delay.
    pub fn new(rules: Vec<Rule>, delay: Option<Delay>) -> (r: Rules)
        requires
            forall|i: int| 0 <= i < rules@.len() ==> (#[trigger] rules@[i]).wf(),
        ensures
            r.wf(),
            sorted_by_precedence(r@),
            r@.to_multiset() == rule_views(rules@).to_multiset(),
            r@.len() == rules@.len(),
            r.spec_delay() == delay,
    {
        let ghost input = rule_views(rules@);
        let mut sorted: Vec<Rule> = Vec::new();
        let mut rest = rules;
        proof {
            assert(rule_views(sorted@) =~= Seq::<RuleView>::empty());
            rule_views(sorted@).to_multiset_ensures();
        }
        while rest.len() > 0
            invariant
                forall|i: int| 0 <= i < rest@.len() ==> (#[trigger] rest@[i]).wf(),
                forall|i: int| 0 <= i < sorted@.len() ==> (#[trigger] sorted@[i]).wf(),
                sorted_by_precedence(rule_views(sorted@)),
                rule_views(sorted@).to_multiset().add(rule_views(rest@).to_multiset())
                    == input.to_multiset(),
                sorted@.len() + rest@.len() == input.len(),
            decreases rest@.len(),
        {
            let ghost before_rest = rest@;
            let x = rest.pop().unwrap();
            assert(rule_views(before_rest) =~= rule_views(rest@).push(x@));
            // Insert before the first rule that is not strictly more specific
            // than `x`, so that rules of equal rank keep their order.
            let mut k: usize = 0;
            while k < sorted.len() && precedes_rule(&sorted[k], &x)
                invariant
                    k <= sorted@.len(),
                    forall|m: int| 0 <= m < k ==> precedes(#[trigger] sorted@[m]@, x@),
                decreases sorted@.len() - k,
            {
                k = k + 1;
            }
            let ghost s = rule_views(sorted@);
            sorted.insert(k, x);
            proof {
                assert(rule_views(sorted@) =~= s.insert(k as int, x@));
                lemma_insert_sorted(s, x@, k as int);
                vstd::seq_lib::to_multiset_insert(s, k as int, x@);
                vstd::seq_lib::to_multiset_build(rule_views(rest@), x@);
                assert(s.to_multiset().insert(x@).add(rule_views(rest@).to_multiset())
                    =~= s.to_multiset().add(rule_views(rest@).to_multiset().insert(x@)));
            }
        }
        proof {
            assert(rule_views(rest@) =~= Seq::<RuleView>::empty());
            rule_views(rest@).to_multiset_ensures();
            assert(rule_views(sorted@).to_multiset().add(rule_views(rest@).to_multiset())
                =~= rule_views(sorted@).to_multiset());
        }
        Rules { rules: sorted, delay }
    }
}

impl Rules {
    /// Whether `path` (relative to the site root) is allowed: `/robots.txt`
    /// always is; otherwise the first rule, in precedence order, that matches
    /// the normalized path decides, and a path that no rule matches is
    /// allowed.
    pub fn is_match(&self, path: &str) -> (r: bool)
        requires
            self.wf(),
        ensures
            r == verdict(self@, encode_utf8(path@)),
    {
        self.is_match_bytes(path.as_bytes())
    }

    /// [`Rules::is_match`] on the bytes of a path.
    pub fn is_match_bytes(&self, path: &[u8]) -> (r: bool)
        requires
            self.wf(),
        ensures
            r == verdict(self@, path@),
    {
        let n = normalize_bytes(path);
        proof {
            lemma_visible_plain(n@);
        }
        if is_robots_txt(n.as_slice()) {
            return true;
        }
        let mut i: usize = 0;
        while i < self.rules.len()
            invariant
                self.wf(),
                n@ == normalized(path@),
                plain_haystack(n@),
                n@ != robots_txt(),
                i <= self.rules@.len(),
                forall|j: int| 0 <= j < i ==> !rule_matches(#[trigger] self@[j], n@),
            decreases self.rules@.len() - i,
        {
            let rule = &self.rules[i];
            assert(self@[i as int] == rule@);
            if rule.matches_bytes(n.as_slice()) {
                proof {
                    lemma_first_match_decides(self@, n@, i as int);
                }
                return rule.is_allowed();
            }
            i = i + 1;
        }
        true
    }

    /// The crawl delay of the group.
    pub fn delay(&self) -> (r: Option<Delay>)
        ensures
            r == self.spec_delay(),
    {
        self.delay
    }

    /// Whether the set holds no rule.
    pub fn is_empty(&self) -> (r: bool)
        ensures
            r == (self@.len() == 0),
    {
        self.rules.len() == 0
    }
}

/// Whether `b` is `/robots.txt`.
pub fn is_robots_txt(b: &[u8]) -> (r: bool)
    ensures
        r == (b@ == robots_txt()),
{
    let ghost t = robots_txt();
    if b.len() != 11 {
        return false;
    }
    let r = b[0] == 47 && b[1] == 114 && b[2] == 111 && b[3] == 98 && b[4] == 111 && b[5] == 116
        && b[6] == 115 && b[7] == 46 && b[8] == 116 && b[9] == 120 && b[10] == 116;
    if r {
        assert(b@ =~= t);
    }
    r
}

/// Whether rule `a` is strictly more specific than rule `b`.
pub fn precedes_rule(a: &Rule, b: &Rule) -> (r: bool)
    ensures
        r == precedes(a@, b@),
{
    let la = a.len();
    let lb = b.len();
    la > lb || (la == lb && a.is_allowed() && !b.is_allowed())
}

/// Inserting `x` after the rules strictly more specific than it, and
/// before one that is not, keeps a sorted sequence sorted.
proof fn lemma_insert_sorted(s: Seq<RuleView>, x: RuleView, k: int)
    requires
        sorted_by_precedence(s),
        0 <= k <= s.len(),
        forall|m: int| 0 <= m < k ==> precedes(#[trigger] s[m], x),
        k < s.len() ==> !precedes(s[k], x),
    ensures
        sorted_by_precedence(s.insert(k, x)),
{
    let t = s.insert(k, x);
    assert forall|i: int, j: int| 0 <= i < j < t.len() implies !precedes(#[trigger] t[j], #[trigger] t[i]) by {
        if i < k && j < k {
            assert(t[i] == s[i] && t[j] == s[j]);
        } else if i < k && j == k {
            assert(t[i] == s[i]);
            assert(precedes(s[i], x));
        } else if i < k && j > k {
            assert(t[i] == s[i] && t[j] == s[j - 1]);
        } else if i == k {
            assert(t[j] == s[j - 1]);
            assert(!precedes(s[k], x));
            if j - 1 > k {
                assert(!precedes(s[j - 1], s[k]));
            }
        } else {
            assert(t[i] == s[i - 1] && t[j] == s[j - 1]);
        }
    }
}

} // verus!
