//! The rule resolution engine: glob-based path matching, keyword triggers,
//! and a deterministic priority ordering of the matched rules.

use vstd::prelude::*;

use crate::rule::{Rule, spec_category_rank};
use crate::strutil::{
    lex_lt, lemma_lex_antisymmetric, lemma_lex_lt_trans, lemma_lex_total, str_eq, str_lex_le,
};

verus! {

/// The context a rule set is resolved against: an optional candidate file
/// path and a set of active keyword triggers.
#[derive(Debug, Clone, PartialEq)]
pub struct RuleContext {
    pub path: Option<String>,
    pub triggers: Vec<String>,
}

impl RuleContext {
    pub fn new(path: Option<String>, triggers: Vec<String>) -> (r: Self)
        ensures
            r.path == path,
            r.triggers == triggers,
    {
        RuleContext { path, triggers }
    }

    /// The empty context: no path, no triggers.
    pub fn empty() -> (r: Self)
        ensures
            r.path is None,
            r.triggers@ == Seq::<String>::empty(),
    {
        RuleContext { path: None, triggers: Vec::new() }
    }
}

/// Glob matching, anchored to the whole candidate path. `*` matches any run
/// of characters except the path separator, `**` matches any run including
/// separators, and any other character matches itself.
pub open spec fn glob_match_seq(p: Seq<char>, t: Seq<char>) -> bool
    decreases p.len(), t.len(),
{
    if p.len() == 0 {
        t.len() == 0
    } else if p.len() >= 2 && p[0] == '*' && p[1] == '*' {
        glob_match_seq(p.skip(2), t) || (t.len() > 0 && glob_match_seq(p, t.skip(1)))
    } else if p[0] == '*' {
        glob_match_seq(p.skip(1), t) || (t.len() > 0 && t[0] != '/' && glob_match_seq(
            p,
            t.skip(1),
        ))
    } else {
        t.len() > 0 && p[0] == t[0] && glob_match_seq(p.skip(1), t.skip(1))
    }
}

/// A pattern is well-formed unless it contains a run of three or more
/// consecutive `*` characters, which has no meaning in this glob dialect.
pub open spec fn glob_pattern_valid(p: Seq<char>) -> bool {
    forall|i: int|
        0 <= i && i + 2 < p.len() ==> !(#[trigger] p[i] == '*' && p[i + 1] == '*' && p[i + 2]
            == '*')
}

/// Executable well-formedness test for a glob pattern.
pub fn glob_pattern_is_valid(p: &str) -> (r: bool)
    ensures
        r == glob_pattern_valid(p@),
{
    let len = p.unicode_len();
    if len < 3 {
        return true;
    }
    let mut i: usize = 0;
    while i + 2 < len
        invariant
            len == p@.len(),
            i + 2 <= len,
            forall|m: int|
                0 <= m < i ==> !(#[trigger] p@[m] == '*' && p@[m + 1] == '*' && p@[m + 2]
                    == '*'),
        decreases len - i,
    {
        if p.get_char(i) == '*' && p.get_char(i + 1) == '*' && p.get_char(i + 2) == '*' {
            return false;
        }
        i = i + 1;
    }
    true
}

/// Recursive matcher over character indices, mirroring `glob_match_seq`.
fn glob_match_at(p: &str, t: &str, i: usize, j: usize, plen: usize, tlen: usize) -> (r: bool)
    requires
        plen == p@.len(),
        tlen == t@.len(),
        i <= plen,
        j <= tlen,
    ensures
        r == glob_match_seq(p@.skip(i as int), t@.skip(j as int)),
    decreases plen - i, tlen - j,
{
    proof {
        assert(p@.skip(i as int).len() == plen - i);
        assert(t@.skip(j as int).len() == tlen - j);
        if i < plen {
            assert(p@.skip(i as int)[0] == p@[i as int]);
            if i + 1 < plen {
                assert(p@.skip(i as int)[1] == p@[i + 1]);
            }
        }
        if j < tlen {
            assert(t@.skip(j as int)[0] == t@[j as int]);
        }
        if i < plen {
            assert(p@.skip(i as int).skip(1) =~= p@.skip(i + 1));
        }
        if j < tlen {
            assert(t@.skip(j as int).skip(1) =~= t@.skip(j + 1));
        }
        if i + 2 <= plen {
            assert(p@.skip(i as int).skip(2) =~= p@.skip(i + 2));
        }
    }
    if i == plen {
        return j == tlen;
    }
    let c = p.get_char(i);
    if c == '*' && i + 1 < plen && p.get_char(i + 1) == '*' {
        if glob_match_at(p, t, i + 2, j, plen, tlen) {
            return true;
        }
        j < tlen && glob_match_at(p, t, i, j + 1, plen, tlen)
    } else if c == '*' {
        if glob_match_at(p, t, i + 1, j, plen, tlen) {
            return true;
        }
        j < tlen && t.get_char(j) != '/' && glob_match_at(p, t, i, j + 1, plen, tlen)
    } else {
        j < tlen && t.get_char(j) == c && glob_match_at(p, t, i + 1, j + 1, plen, tlen)
    }
}

/// Whether `pattern` matches the whole of `path`.
pub fn glob_match(pattern: &str, path: &str) -> (r: bool)
    ensures
        r == glob_match_seq(pattern@, path@),
{
    proof {
        assert(pattern@.skip(0) =~= pattern@);
        assert(path@.skip(0) =~= path@);
    }
    let plen = pattern.unicode_len();
    let tlen = path.unicode_len();
    glob_match_at(pattern, path, 0, 0, plen, tlen)
}

/// Some well-formed pattern of the rule matches the path.
pub open spec fn spec_path_matches(r: Rule, path: Seq<char>) -> bool {
    exists|i: int|
        0 <= i < r.paths@.len() && glob_pattern_valid(r.paths@[i]@) && glob_match_seq(
            r.paths@[i]@,
            path,
        )
}

/// The rule's trigger set intersects the context's trigger set.
pub open spec fn spec_triggers_intersect(r: Rule, triggers: Seq<String>) -> bool {
    exists|i: int, j: int|
        0 <= i < r.triggers@.len() && 0 <= j < triggers.len() && r.triggers@[i]@ == triggers[j]@
}

/// A rule is a candidate match when it is always injected, when the context
/// carries a path matched by one of its well-formed glob patterns, or when
/// the trigger sets intersect. A pattern that is not well-formed never
/// matches.
pub open spec fn spec_rule_matches(r: Rule, context: RuleContext) -> bool {
    ||| r.always_inject
    ||| (context.path is Some && spec_path_matches(r, context.path->0@))
    ||| spec_triggers_intersect(r, context.triggers@)
}

/// A dead rule: never injected, no paths, no triggers.
pub open spec fn spec_rule_is_dead(r: Rule) -> bool {
    !r.always_inject && r.paths@.len() == 0 && r.triggers@.len() == 0
}

/// Executable dead-rule test, for callers that flag such rules at load time.
pub fn rule_is_dead(rule: &Rule) -> (r: bool)
    ensures
        r == spec_rule_is_dead(*rule),
{
    !rule.always_inject && rule.paths.len() == 0 && rule.triggers.len() == 0
}

/// Executable candidate-match test.
pub fn rule_matches(rule: &Rule, context: &RuleContext) -> (r: bool)
    ensures
        r == spec_rule_matches(*rule, *context),
{
    if rule.always_inject {
        return true;
    }
    if context.path.is_some() {
        let path: &String = context.path.as_ref().unwrap();
        let n = rule.paths.len();
        let mut i: usize = 0;
        while i < n
            invariant
                i <= n,
                n == rule.paths@.len(),
                context.path is Some,
                *path == context.path->0,
                forall|m: int|
                    0 <= m < i ==> !(glob_pattern_valid(rule.paths@[m]@) && glob_match_seq(
                        rule.paths@[m]@,
                        context.path->0@,
                    )),
            decreases n - i,
        {
            let pattern_ok = glob_pattern_is_valid(rule.paths[i].as_str());
            if pattern_ok && glob_match(rule.paths[i].as_str(), path.as_str()) {
                proof {
                    assert(glob_match_seq(rule.paths@[i as int]@, context.path->0@));
                    assert(spec_path_matches(*rule, context.path->0@));
                }
                return true;
            }
            i = i + 1;
        }
    }
    let n = rule.triggers.len();
    let m = context.triggers.len();
    let mut i: usize = 0;
    while i < n
        invariant
            i <= n,
            n == rule.triggers@.len(),
            m == context.triggers@.len(),
            !(context.path is Some && spec_path_matches(*rule, context.path->0@)),
            !rule.always_inject,
            forall|a: int, b: int|
                0 <= a < i && 0 <= b < m ==> rule.triggers@[a]@ != context.triggers@[b]@,
        decreases n - i,
    {
        let mut j: usize = 0;
        while j < m
            invariant
                i < n,
                j <= m,
                n == rule.triggers@.len(),
                m == context.triggers@.len(),
                forall|b: int| 0 <= b < j ==> rule.triggers@[i as int]@ != context.triggers@[b]@,
            decreases m - j,
        {
            if str_eq(rule.triggers[i].as_str(), context.triggers[j].as_str()) {
                return true;
            }
            j = j + 1;
        }
        i = i + 1;
    }
    false
}

/// The strict resolution order on (rule, position) pairs: higher priority
/// first; ties broken by category rank (project before tech before framework
/// before module before group before domain), then by name ascending, then
/// by position in the rule set.
pub open spec fn spec_rule_precedes(a: Rule, ai: int, b: Rule, bi: int) -> bool {
    ||| a.priority > b.priority
    ||| (a.priority == b.priority && spec_category_rank(a.category) < spec_category_rank(
        b.category,
    ))
    ||| (a.priority == b.priority && spec_category_rank(a.category) == spec_category_rank(
        b.category,
    ) && lex_lt(a.name@, b.name@))
    ||| (a.priority == b.priority && spec_category_rank(a.category) == spec_category_rank(
        b.category,
    ) && a.name@ == b.name@ && ai < bi)
}

/// The resolution order is total over distinct positions.
pub proof fn lemma_precedes_total(a: Rule, ai: int, b: Rule, bi: int)
    requires
        ai != bi,
    ensures
        spec_rule_precedes(a, ai, b, bi) || spec_rule_precedes(b, bi, a, ai),
{
    if a.priority == b.priority && spec_category_rank(a.category) == spec_category_rank(
        b.category,
    ) {
        lemma_lex_total(a.name@, b.name@);
    }
}

/// The resolution order is asymmetric.
pub proof fn lemma_precedes_asymmetric(a: Rule, ai: int, b: Rule, bi: int)
    requires
        spec_rule_precedes(a, ai, b, bi),
    ensures
        !spec_rule_precedes(b, bi, a, ai),
{
    if a.priority == b.priority && spec_category_rank(a.category) == spec_category_rank(
        b.category,
    ) && lex_lt(a.name@, b.name@) {
        lemma_lex_antisymmetric(a.name@, b.name@);
    }
}

/// The resolution order is transitive.
pub proof fn lemma_precedes_trans(a: Rule, ai: int, b: Rule, bi: int, c: Rule, ci: int)
    requires
        spec_rule_precedes(a, ai, b, bi),
        spec_rule_precedes(b, bi, c, ci),
    ensures
        spec_rule_precedes(a, ai, c, ci),
{
    if a.priority == b.priority && b.priority == c.priority && spec_category_rank(a.category)
        == spec_category_rank(b.category) && spec_category_rank(b.category)
        == spec_category_rank(c.category) {
        if lex_lt(a.name@, b.name@) && lex_lt(b.name@, c.name@) {
            lemma_lex_lt_trans(a.name@, b.name@, c.name@);
        }
    }
}

/// Executable comparison in the resolution order.
fn rule_precedes(a: &Rule, ai: usize, b: &Rule, bi: usize) -> (r: bool)
    ensures
        r == spec_rule_precedes(*a, ai as int, *b, bi as int),
{
    if a.priority > b.priority {
        return true;
    }
    if a.priority < b.priority {
        return false;
    }
    let ra = a.category.rank();
    let rb = b.category.rank();
    if ra < rb {
        return true;
    }
    if ra > rb {
        return false;
    }
    let names_equal = str_eq(a.name.as_str(), b.name.as_str());
    if names_equal {
        proof {
            crate::strutil::lemma_lex_irreflexive(a.name@);
        }
        return ai < bi;
    }
    let le = str_lex_le(a.name.as_str(), b.name.as_str());
    proof {
        if !le {
            lemma_lex_total(a.name@, b.name@);
            lemma_lex_antisymmetric(b.name@, a.name@);
        }
    }
    le
}

/// What it means for `out` to be the resolution of `rules` against
/// `context`: `out` holds exactly the positions of the candidate matches,
/// each once, ordered by the strict resolution order.
pub open spec fn is_resolution(rules: Seq<Rule>, context: RuleContext, out: Seq<usize>) -> bool {
    &&& forall|k: int|
        0 <= k < out.len() ==> out[k] < rules.len() && spec_rule_matches(
            rules[out[k] as int],
            context,
        )
    &&& forall|i: usize|
        i < rules.len() && spec_rule_matches(rules[i as int], context) ==> out.contains(i)
    &&& out.no_duplicates()
    &&& forall|k1: int, k2: int|
        0 <= k1 < k2 < out.len() ==> spec_rule_precedes(
            rules[out[k1] as int],
            out[k1] as int,
            rules[out[k2] as int],
            out[k2] as int,
        )
}

/// Resolves a rule set against a context: returns the positions of all
/// candidate matches, ordered by descending priority with deterministic
/// tie-breaks.
pub fn resolve(rules: &Vec<Rule>, context: &RuleContext) -> (out: Vec<usize>)
    ensures
        is_resolution(rules@, *context, out@),
{
    let n = rules.len();
    let mut out: Vec<usize> = Vec::new();
    let mut idx: usize = 0;
    while idx < n
        invariant
            idx <= n,
            n == rules@.len(),
            forall|k: int|
                0 <= k < out@.len() ==> out@[k] < idx && spec_rule_matches(
                    rules@[out@[k] as int],
                    *context,
                ),
            forall|i2: usize|
                i2 < idx && spec_rule_matches(rules@[i2 as int], *context) ==> out@.contains(i2),
            out@.no_duplicates(),
            forall|k1: int, k2: int|
                0 <= k1 < k2 < out@.len() ==> spec_rule_precedes(
                    rules@[out@[k1] as int],
                    out@[k1] as int,
                    rules@[out@[k2] as int],
                    out@[k2] as int,
                ),
        decreases n - idx,
    {
        if rule_matches(&rules[idx], context) {
            let len = out.len();
            let mut pos: usize = 0;
            while pos < len && rule_precedes(&rules[out[pos]], out[pos], &rules[idx], idx)
                invariant
                    pos <= len,
                    len == out@.len(),
                    idx < n,
                    n == rules@.len(),
                    forall|k: int| 0 <= k < out@.len() ==> out@[k] < idx,
                    forall|k: int|
                        0 <= k < pos ==> spec_rule_precedes(
                            rules@[out@[k] as int],
                            out@[k] as int,
                            rules@[idx as int],
                            idx as int,
                        ),
                decreases len - pos,
            {
                pos = pos + 1;
            }
            proof {
                if pos < len {
                    lemma_precedes_total(
                        rules@[out@[pos as int] as int],
                        out@[pos as int] as int,
                        rules@[idx as int],
                        idx as int,
                    );
                }
                assert forall|k: int| pos <= k < len implies spec_rule_precedes(
                    rules@[idx as int],
                    idx as int,
                    rules@[out@[k] as int],
                    out@[k] as int,
                ) by {
                    if k > pos {
                        lemma_precedes_trans(
                            rules@[idx as int],
                            idx as int,
                            rules@[out@[pos as int] as int],
                            out@[pos as int] as int,
                            rules@[out@[k] as int],
                            out@[k] as int,
                        );
                    }
                }
            }
            let ghost old_out = out@;
            out.insert(pos, idx);
            proof {
                old_out.insert_ensures(pos as int, idx);
                assert(out@ == old_out.insert(pos as int, idx));
                assert(out@.len() == old_out.len() + 1);
                assert forall|k: int| 0 <= k < pos implies out@[k] == old_out[k] by {
                    assert(old_out.insert(pos as int, idx)[k] == old_out[k]);
                }
                assert forall|k: int| pos <= k < old_out.len() implies out@[k + 1]
                    == old_out[k] by {
                    assert(old_out.insert(pos as int, idx)[k + 1] == old_out[k]);
                }
                assert(out@[pos as int] == idx) by {
                    assert(old_out.insert(pos as int, idx)[pos as int] == idx);
                }
                // Membership: everything previously present is still present,
                // and the new position holds idx.
                assert forall|i2: usize|
                    i2 < idx + 1 && spec_rule_matches(rules@[i2 as int], *context) implies out@
                    .contains(i2) by {
                    if i2 == idx {
                        assert(out@[pos as int] == idx);
                    } else {
                        assert(old_out.contains(i2));
                        let k = choose|k: int| 0 <= k < old_out.len() && old_out[k] == i2;
                        assert(0 <= k < old_out.len() && old_out[k] == i2);
                        if k < pos {
                            assert(out@[k] == old_out[k]);
                        } else {
                            assert(out@[k + 1] == old_out[k]);
                        }
                    }
                }
                // No duplicates: idx is new, everything else keeps one slot.
                assert(out@.no_duplicates()) by {
                    assert forall|k1: int, k2: int|
                        0 <= k1 < out@.len() && 0 <= k2 < out@.len() && k1 != k2 implies out@[k1]
                        != out@[k2] by {
                        let m1 = if k1 < pos {
                            k1
                        } else {
                            k1 - 1
                        };
                        let m2 = if k2 < pos {
                            k2
                        } else {
                            k2 - 1
                        };
                        if k1 == pos {
                            assert(out@[k2] == old_out[m2] && old_out[m2] < idx as usize);
                        } else if k2 == pos {
                            assert(out@[k1] == old_out[m1] && old_out[m1] < idx as usize);
                        } else {
                            assert(out@[k1] == old_out[m1] && out@[k2] == old_out[m2]);
                        }
                    }
                }
                // Sortedness across the insertion point.
                assert forall|k1: int, k2: int|
                    0 <= k1 < k2 < out@.len() implies spec_rule_precedes(
                    rules@[out@[k1] as int],
                    out@[k1] as int,
                    rules@[out@[k2] as int],
                    out@[k2] as int,
                ) by {
                    let m1 = if k1 < pos {
                        k1
                    } else {
                        k1 - 1
                    };
                    let m2 = if k2 < pos {
                        k2
                    } else {
                        k2 - 1
                    };
                    if k1 == pos {
                        assert(out@[k2] == old_out[m2]);
                    } else if k2 == pos {
                        assert(out@[k1] == old_out[m1]);
                    } else {
                        assert(out@[k1] == old_out[m1] && out@[k2] == old_out[m2]);
                    }
                }
            }
        }
        idx = idx + 1;
    }
    out
}

/// Resolves a rule set and returns the names of the matched rules, in
/// resolution order.
pub fn resolve_names(rules: &Vec<Rule>, context: &RuleContext) -> (out: Vec<String>)
    ensures
        exists|ix: Seq<usize>|
            is_resolution(rules@, *context, ix) && out@.len() == ix.len() && (forall|k: int|
                0 <= k < ix.len() ==> out@[k]@ == rules@[ix[k] as int].name@),
{
    let ix = resolve(rules, context);
    let mut out: Vec<String> = Vec::new();
    let n = ix.len();
    let mut k: usize = 0;
    while k < n
        invariant
            k <= n,
            n == ix@.len(),
            is_resolution(rules@, *context, ix@),
            out@.len() == k,
            forall|m: int| 0 <= m < k ==> out@[m]@ == rules@[ix@[m] as int].name@,
        decreases n - k,
    {
        out.push(rules[ix[k]].name.clone());
        k = k + 1;
    }
    out
}

/// A rule marked `always_inject` matches every context, including the empty
/// one.
pub proof fn lemma_always_inject_matches(r: Rule, context: RuleContext)
    requires
        r.always_inject,
    ensures
        spec_rule_matches(r, context),
{
}

/// A dead rule (not always injected, no paths, no triggers) matches no
/// context at all.
pub proof fn lemma_dead_rule_never_matches(r: Rule, context: RuleContext)
    requires
        spec_rule_is_dead(r),
    ensures
        !spec_rule_matches(r, context),
{
}

/// A dead rule never appears in a resolution result.
pub proof fn lemma_dead_rule_never_resolved(
    rules: Seq<Rule>,
    context: RuleContext,
    out: Seq<usize>,
    i: usize,
)
    requires
        is_resolution(rules, context, out),
        (i as int) < rules.len(),
        spec_rule_is_dead(rules[i as int]),
    ensures
        !out.contains(i),
{
    lemma_dead_rule_never_matches(rules[i as int], context);
    if out.contains(i) {
        let k = choose|k: int| 0 <= k < out.len() && out[k] == i;
        assert(spec_rule_matches(rules[out[k] as int], context));
        assert(false);
    }
}

/// Matched rules with strictly higher priority come strictly earlier in the
/// resolution result.
pub proof fn lemma_priority_ordering(
    rules: Seq<Rule>,
    context: RuleContext,
    out: Seq<usize>,
    k1: int,
    k2: int,
)
    requires
        is_resolution(rules, context, out),
        0 <= k1 < out.len(),
        0 <= k2 < out.len(),
        rules[out[k1] as int].priority > rules[out[k2] as int].priority,
    ensures
        k1 < k2,
{
    if k1 == k2 {
        assert(false);
    } else if k2 < k1 {
        assert(spec_rule_precedes(
            rules[out[k2] as int],
            out[k2] as int,
            rules[out[k1] as int],
            out[k1] as int,
        ));
    }
}

/// The resolution of a rule set against a context is unique: any two
/// sequences satisfying `is_resolution` are equal. Together with the
/// `ensures` of `resolve`, repeated calls on the same inputs return the
/// identical ordered sequence.
pub proof fn lemma_resolution_deterministic(
    rules: Seq<Rule>,
    context: RuleContext,
    out1: Seq<usize>,
    out2: Seq<usize>,
)
    requires
        is_resolution(rules, context, out1),
        is_resolution(rules, context, out2),
    ensures
        out1 == out2,
{
    lemma_sorted_same_elements_equal(rules, out1, out2);
}

/// A sorted, duplicate-free sequence of positions is determined by its set
/// of elements.
proof fn lemma_sorted_same_elements_equal(rules: Seq<Rule>, out1: Seq<usize>, out2: Seq<usize>)
    requires
        forall|k: int| 0 <= k < out1.len() ==> out1[k] < rules.len(),
        forall|k: int| 0 <= k < out2.len() ==> out2[k] < rules.len(),
        out1.no_duplicates(),
        out2.no_duplicates(),
        forall|k1: int, k2: int|
            0 <= k1 < k2 < out1.len() ==> spec_rule_precedes(
                rules[out1[k1] as int],
                out1[k1] as int,
                rules[out1[k2] as int],
                out1[k2] as int,
            ),
        forall|k1: int, k2: int|
            0 <= k1 < k2 < out2.len() ==> spec_rule_precedes(
                rules[out2[k1] as int],
                out2[k1] as int,
                rules[out2[k2] as int],
                out2[k2] as int,
            ),
        forall|y: usize| out1.contains(y) <==> out2.contains(y),
    ensures
        out1 == out2,
    decreases out1.len(),
{
    if out1.len() == 0 {
        if out2.len() > 0 {
            assert(out2.contains(out2[0]));
            assert(out1.contains(out2[0]));
        }
        assert(out1 =~= out2);
    } else {
        assert(out2.len() > 0) by {
            assert(out1.contains(out1[0]));
            assert(out2.contains(out1[0]));
        }
        // The heads are equal: each is minimal, and both sets agree.
        assert(out1[0] == out2[0]) by {
            if out1[0] != out2[0] {
                assert(out2.contains(out1[0])) by {
                    assert(out1.contains(out1[0]));
                }
                assert(out1.contains(out2[0])) by {
                    assert(out2.contains(out2[0]));
                }
                let k1 = choose|k: int| 0 <= k < out2.len() && out2[k] == out1[0];
                let k2 = choose|k: int| 0 <= k < out1.len() && out1[k] == out2[0];
                assert(k1 > 0 && k2 > 0);
                assert(spec_rule_precedes(
                    rules[out2[0] as int],
                    out2[0] as int,
                    rules[out1[0] as int],
                    out1[0] as int,
                ));
                assert(spec_rule_precedes(
                    rules[out1[0] as int],
                    out1[0] as int,
                    rules[out2[0] as int],
                    out2[0] as int,
                ));
                lemma_precedes_asymmetric(
                    rules[out1[0] as int],
                    out1[0] as int,
                    rules[out2[0] as int],
                    out2[0] as int,
                );
            }
        }
        let t1 = out1.drop_first();
        let t2 = out2.drop_first();
        assert forall|y: usize| t1.contains(y) <==> t2.contains(y) by {
            if t1.contains(y) {
                let k = choose|k: int| 0 <= k < t1.len() && t1[k] == y;
                assert(out1[k + 1] == y);
                assert(out1.contains(y));
                assert(y != out1[0]);
                assert(out2.contains(y));
                let m = choose|m: int| 0 <= m < out2.len() && out2[m] == y;
                assert(m > 0);
                assert(t2[m - 1] == y);
                assert(t2.contains(y));
            }
            if t2.contains(y) {
                let k = choose|k: int| 0 <= k < t2.len() && t2[k] == y;
                assert(out2[k + 1] == y);
                assert(out2.contains(y));
                assert(y != out2[0]);
                assert(out1.contains(y));
                let m = choose|m: int| 0 <= m < out1.len() && out1[m] == y;
                assert(m > 0);
                assert(t1[m - 1] == y);
                assert(t1.contains(y));
            }
        }
        assert(forall|k: int| 0 <= k < t1.len() ==> t1[k] == out1[k + 1]);
        assert(forall|k: int| 0 <= k < t2.len() ==> t2[k] == out2[k + 1]);
        lemma_sorted_same_elements_equal(rules, t1, t2);
        assert(out1 =~= out2) by {
            assert(forall|k: int| 1 <= k < out1.len() ==> out1[k] == t1[k - 1]);
            assert(forall|k: int| 1 <= k < out2.len() ==> out2[k] == t2[k - 1]);
        }
    }
}

/// The positions of all rules that carry a pattern that is not well-formed,
/// as (rule position, pattern position) pairs: the load-time diagnostic for
/// invalid globs. Such patterns are treated as never matching.
pub fn invalid_glob_patterns(rules: &Vec<Rule>) -> (out: Vec<(usize, usize)>)
    ensures
        forall|k: int|
            0 <= k < out@.len() ==> {
                let pair = #[trigger] out@[k];
                pair.0 < rules@.len() && pair.1 < rules@[pair.0 as int].paths@.len()
                    && !glob_pattern_valid(rules@[pair.0 as int].paths@[pair.1 as int]@)
            },
        forall|i: int, j: int|
            0 <= i < rules@.len() && 0 <= j < rules@[i].paths@.len() && !glob_pattern_valid(
                rules@[i].paths@[j]@,
            ) ==> out@.contains((i as usize, j as usize)),
{
    let n = rules.len();
    let mut out: Vec<(usize, usize)> = Vec::new();
    let mut i: usize = 0;
    while i < n
        invariant
            i <= n,
            n == rules@.len(),
            forall|k: int|
                0 <= k < out@.len() ==> {
                    let pair = #[trigger] out@[k];
                    pair.0 < rules@.len() && pair.1 < rules@[pair.0 as int].paths@.len()
                        && !glob_pattern_valid(rules@[pair.0 as int].paths@[pair.1 as int]@)
                },
            forall|a: int, b: int|
                0 <= a < i && 0 <= b < rules@[a].paths@.len() && !glob_pattern_valid(
                    rules@[a].paths@[b]@,
                ) ==> out@.contains((a as usize, b as usize)),
        decreases n - i,
    {
        let m = rules[i].paths.len();
        let mut j: usize = 0;
        while j < m
            invariant
                i < n,
                j <= m,
                n == rules@.len(),
                m == rules@[i as int].paths@.len(),
                forall|k: int|
                    0 <= k < out@.len() ==> {
                        let pair = #[trigger] out@[k];
                        pair.0 < rules@.len() && pair.1 < rules@[pair.0 as int].paths@.len()
                            && !glob_pattern_valid(rules@[pair.0 as int].paths@[pair.1 as int]@)
                    },
                forall|a: int, b: int|
                    0 <= a < i && 0 <= b < rules@[a].paths@.len() && !glob_pattern_valid(
                        rules@[a].paths@[b]@,
                    ) ==> out@.contains((a as usize, b as usize)),
                forall|b: int|
                    0 <= b < j && !glob_pattern_valid(rules@[i as int].paths@[b]@)
                        ==> out@.contains((i as usize, b as usize)),
            decreases m - j,
        {
            if !glob_pattern_is_valid(rules[i].paths[j].as_str()) {
                let ghost old_out = out@;
                out.push((i, j));
                proof {
                    assert(out@ == old_out.push((i as usize, j as usize)));
                    assert(forall|k: int| 0 <= k < old_out.len() ==> out@[k] == old_out[k]);
                    assert(out@[old_out.len() as int] == (i as usize, j as usize));
                    assert forall|a: int, b: int|
                        0 <= a < i && 0 <= b < rules@[a].paths@.len() && !glob_pattern_valid(
                            rules@[a].paths@[b]@,
                        ) implies out@.contains((a as usize, b as usize)) by {
                        let k = choose|k: int|
                            0 <= k < old_out.len() && old_out[k] == (a as usize, b as usize);
                        assert(out@[k] == (a as usize, b as usize));
                    }
                    assert forall|b: int|
                        0 <= b < j + 1 && !glob_pattern_valid(
                            rules@[i as int].paths@[b]@,
                        ) implies out@.contains((i as usize, b as usize)) by {
                        if b < j {
                            let k = choose|k: int|
                                0 <= k < old_out.len() && old_out[k] == (i as usize, b as usize);
                            assert(out@[k] == (i as usize, b as usize));
                        } else {
                            assert(out@[old_out.len() as int] == (i as usize, b as usize));
                        }
                    }
                }
            }
            j = j + 1;
        }
        i = i + 1;
    }
    out
}

} // verus!
