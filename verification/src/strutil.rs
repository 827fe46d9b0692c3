//! Verified helpers for strings: equality, prefix tests, a lexicographic
//! order on character sequences, and decimal formatting of integers.

use vstd::prelude::*;

verus! {

/// Executable equality on string slices, specified over their views.
pub fn str_eq(a: &str, b: &str) -> (r: bool)
    ensures
        r == (a@ == b@),
{
    let sa = a.to_owned();
    let sb = b.to_owned();
    sa == sb
}

/// `p` is a prefix of `s`, character by character.
pub open spec fn is_char_prefix(p: Seq<char>, s: Seq<char>) -> bool {
    p.len() <= s.len() && s.subrange(0, p.len() as int) == p
}

/// Executable character-wise prefix test.
pub fn str_starts_with(s: &str, p: &str) -> (r: bool)
    ensures
        r == is_char_prefix(p@, s@),
{
    let slen = s.unicode_len();
    let plen = p.unicode_len();
    if plen > slen {
        return false;
    }
    let head = s.substring_char(0, plen);
    str_eq(head, p)
}

/// Strict lexicographic order on character sequences by Unicode scalar value;
/// a proper prefix is ordered before any of its extensions.
pub open spec fn lex_lt(a: Seq<char>, b: Seq<char>) -> bool
    decreases a.len(),
{
    if b.len() == 0 {
        false
    } else if a.len() == 0 {
        true
    } else if (a[0] as u32) < (b[0] as u32) {
        true
    } else if a[0] == b[0] {
        lex_lt(a.drop_first(), b.drop_first())
    } else {
        false
    }
}

pub open spec fn lex_le(a: Seq<char>, b: Seq<char>) -> bool {
    lex_lt(a, b) || a == b
}

/// The lexicographic order is irreflexive.
pub proof fn lemma_lex_irreflexive(a: Seq<char>)
    ensures
        !lex_lt(a, a),
    decreases a.len(),
{
    if a.len() > 0 {
        lemma_lex_irreflexive(a.drop_first());
    }
}

/// Two sequences are always comparable under the lexicographic order.
pub proof fn lemma_lex_total(a: Seq<char>, b: Seq<char>)
    ensures
        lex_le(a, b) || lex_le(b, a),
    decreases a.len(),
{
    if a.len() == 0 && b.len() == 0 {
        assert(a =~= b);
    } else if a.len() == 0 {
        assert(lex_lt(a, b));
    } else if b.len() == 0 {
        assert(lex_lt(b, a));
    } else if a[0] == b[0] {
        lemma_lex_total(a.drop_first(), b.drop_first());
        if a.drop_first() == b.drop_first() {
            assert(a.len() == a.drop_first().len() + 1);
            assert(b.len() == b.drop_first().len() + 1);
            assert(forall|k: int|
                1 <= k < a.len() ==> #[trigger] a[k] == a.drop_first()[k - 1]);
            assert(forall|k: int|
                1 <= k < b.len() ==> #[trigger] b[k] == b.drop_first()[k - 1]);
            assert(a =~= b);
        } else if lex_lt(a.drop_first(), b.drop_first()) {
            assert(lex_lt(a, b));
        } else {
            assert(lex_lt(b.drop_first(), a.drop_first()));
            assert(lex_lt(b, a));
        }
    } else {
        if (a[0] as u32) < (b[0] as u32) {
            assert(lex_lt(a, b));
        } else {
            assert((b[0] as u32) < (a[0] as u32)) by {
                vstd::utf8::char_u32_cast(a[0], a[0] as u32);
                vstd::utf8::char_u32_cast(b[0], b[0] as u32);
            }
            assert(lex_lt(b, a));
        }
    }
}

/// The lexicographic order is transitive.
pub proof fn lemma_lex_lt_trans(a: Seq<char>, b: Seq<char>, c: Seq<char>)
    requires
        lex_lt(a, b),
        lex_lt(b, c),
    ensures
        lex_lt(a, c),
    decreases a.len(),
{
    if a.len() > 0 && b.len() > 0 && c.len() > 0 {
        if a[0] == b[0] && b[0] == c[0] {
            lemma_lex_lt_trans(a.drop_first(), b.drop_first(), c.drop_first());
        }
    }
}

/// The order is antisymmetric: mutually ordered sequences are equal.
pub proof fn lemma_lex_antisymmetric(a: Seq<char>, b: Seq<char>)
    requires
        lex_lt(a, b),
    ensures
        !lex_lt(b, a),
    decreases a.len(),
{
    if a.len() > 0 && b.len() > 0 && a[0] == b[0] {
        lemma_lex_antisymmetric(a.drop_first(), b.drop_first());
    }
}

/// Executable lexicographic comparison, specified by `lex_le`.
pub fn str_lex_le(a: &str, b: &str) -> (r: bool)
    ensures
        r == lex_le(a@, b@),
{
    let alen = a.unicode_len();
    let blen = b.unicode_len();
    let mut i: usize = 0;
    proof {
        assert(a@.skip(0) =~= a@);
        assert(b@.skip(0) =~= b@);
        assert(a@.subrange(0, 0) =~= b@.subrange(0, 0));
    }
    loop
        invariant
            i <= alen,
            i <= blen,
            alen == a@.len(),
            blen == b@.len(),
            a@.subrange(0, i as int) == b@.subrange(0, i as int),
            lex_le(a@, b@) == lex_le(a@.skip(i as int), b@.skip(i as int)),
        ensures
            ({
                let j = i as int;
                lex_le(a@, b@) == (i == alen || (i < alen && i < blen && (a@[j] as u32) < (
                b@[j] as u32)))
            }),
        decreases alen - i,
    {
        if i == alen {
            proof {
                lemma_lex_le_of_prefix(a@, b@, i as int);
            }
            break;
        }
        if i == blen {
            proof {
                lemma_lex_gt_of_longer(a@, b@, i as int);
            }
            break;
        }
        let ca = a.get_char(i);
        let cb = b.get_char(i);
        if (ca as u32) < (cb as u32) {
            proof {
                lemma_lex_lt_of_diff(a@, b@, i as int);
            }
            break;
        }
        if (ca as u32) > (cb as u32) {
            proof {
                lemma_lex_gt_of_diff(a@, b@, i as int);
            }
            break;
        }
        proof {
            let sa = a@.skip(i as int);
            let sb = b@.skip(i as int);
            assert(a@.subrange(0, i + 1) =~= b@.subrange(0, i + 1));
            assert(sa[0] == a@[i as int] && sb[0] == b@[i as int]);
            assert(ca == cb);
            assert(sa.drop_first() =~= a@.skip(i + 1));
            assert(sb.drop_first() =~= b@.skip(i + 1));
            assert(lex_lt(sa, sb) == lex_lt(sa.drop_first(), sb.drop_first()));
            assert((sa == sb) == (sa.drop_first() == sb.drop_first())) by {
                if sa.drop_first() == sb.drop_first() {
                    assert(sa.len() == sa.drop_first().len() + 1);
                    assert(sb.len() == sb.drop_first().len() + 1);
                    assert(forall|k: int|
                        1 <= k < sa.len() ==> #[trigger] sa[k] == sa.drop_first()[k - 1]);
                    assert(forall|k: int|
                        1 <= k < sb.len() ==> #[trigger] sb[k] == sb.drop_first()[k - 1]);
                    assert(sa[0] == sb[0]);
                    assert(sa =~= sb);
                }
                if sa == sb {
                    assert(sa.drop_first() =~= sb.drop_first());
                }
            }
        }
        i = i + 1;
    }
    i == alen || (i < blen && (a.get_char(i) as u32) < (b.get_char(i) as u32))
}

/// If the sequences agree up to the end of `a`, then `a <= b`.
proof fn lemma_lex_le_of_prefix(a: Seq<char>, b: Seq<char>, i: int)
    requires
        i == a.len(),
        i <= b.len(),
        a.subrange(0, i) == b.subrange(0, i),
        lex_le(a, b) == lex_le(a.skip(i), b.skip(i)),
    ensures
        lex_le(a, b),
{
    if a.len() == b.len() {
        assert(a.subrange(0, i) =~= a);
        assert(b.subrange(0, i) =~= b);
        assert(a == b);
    } else {
        assert(lex_lt(a.skip(i), b.skip(i)));
    }
}

/// If the sequences agree up to the end of `b` and `a` is longer, `a > b`.
proof fn lemma_lex_gt_of_longer(a: Seq<char>, b: Seq<char>, i: int)
    requires
        i == b.len(),
        i < a.len(),
        a.subrange(0, i) == b.subrange(0, i),
        lex_le(a, b) == lex_le(a.skip(i), b.skip(i)),
    ensures
        !lex_le(a, b),
{
    assert(!lex_lt(a.skip(i), b.skip(i)));
    assert(a.skip(i).len() > 0);
    assert(a != b) by {
        assert(a.len() != b.len());
    }
    assert(a.skip(i) != b.skip(i)) by {
        assert(a.skip(i).len() != b.skip(i).len());
    }
}

proof fn lemma_lex_lt_of_diff(a: Seq<char>, b: Seq<char>, i: int)
    requires
        0 <= i < a.len(),
        i < b.len(),
        (a[i] as u32) < (b[i] as u32),
        lex_le(a, b) == lex_le(a.skip(i), b.skip(i)),
    ensures
        lex_le(a, b),
{
    assert(a.skip(i)[0] == a[i]);
    assert(b.skip(i)[0] == b[i]);
    assert(lex_lt(a.skip(i), b.skip(i)));
}

proof fn lemma_lex_gt_of_diff(a: Seq<char>, b: Seq<char>, i: int)
    requires
        0 <= i < a.len(),
        i < b.len(),
        (a[i] as u32) > (b[i] as u32),
        lex_le(a, b) == lex_le(a.skip(i), b.skip(i)),
    ensures
        !lex_le(a, b),
{
    assert(a.skip(i)[0] == a[i]);
    assert(b.skip(i)[0] == b[i]);
    assert(!lex_lt(a.skip(i), b.skip(i)));
    assert(a.skip(i) != b.skip(i)) by {
        assert(a.skip(i)[0] != b.skip(i)[0]);
    }
}

/// The decimal digit character for `d`.
pub open spec fn digit_char(d: int) -> char {
    if d == 0 {
        '0'
    } else if d == 1 {
        '1'
    } else if d == 2 {
        '2'
    } else if d == 3 {
        '3'
    } else if d == 4 {
        '4'
    } else if d == 5 {
        '5'
    } else if d == 6 {
        '6'
    } else if d == 7 {
        '7'
    } else if d == 8 {
        '8'
    } else {
        '9'
    }
}

/// The decimal representation of `n`, most significant digit first.
pub open spec fn decimal_repr(n: int) -> Seq<char>
    decreases n,
{
    if n < 10 {
        seq![digit_char(n)]
    } else {
        decimal_repr(n / 10).push(digit_char(n % 10))
    }
}

/// One decimal digit as a string slice.
fn digit_str(d: u32) -> (r: &'static str)
    requires
        d < 10,
    ensures
        r@ =~= seq![digit_char(d as int)],
{
    proof {
        reveal_strlit("0");
        reveal_strlit("1");
        reveal_strlit("2");
        reveal_strlit("3");
        reveal_strlit("4");
        reveal_strlit("5");
        reveal_strlit("6");
        reveal_strlit("7");
        reveal_strlit("8");
        reveal_strlit("9");
    }
    match d {
        0 => "0",
        1 => "1",
        2 => "2",
        3 => "3",
        4 => "4",
        5 => "5",
        6 => "6",
        7 => "7",
        8 => "8",
        _ => "9",
    }
}

/// Renders `n` in decimal.
pub fn u32_to_string(n: u32) -> (r: String)
    ensures
        r@ == decimal_repr(n as int),
    decreases n,
{
    if n < 10 {
        digit_str(n).to_owned()
    } else {
        let prefix = u32_to_string(n / 10);
        prefix.concat(digit_str(n % 10))
    }
}

/// What `str::to_lowercase` returns on a string: a function of its
/// characters alone.
pub uninterp spec fn lower_of(s: Seq<char>) -> Seq<char>;

/// Relies on `str::to_lowercase`: the Unicode lowercase mapping of the
/// string, which depends on its characters alone.
#[verifier::external_body]
pub(crate) fn lowercase(s: &str) -> (r: String)
    ensures
        r@ == lower_of(s@),
{
    s.to_lowercase()
}

/// The predicate selecting every character other than `banned`.
pub open spec fn keeps_char(banned: char) -> spec_fn(char) -> bool {
    |c: char| c != banned
}

/// The characters of `s` with every occurrence of `banned` removed.
pub fn chars_without(s: &str, banned: char) -> (r: Vec<char>)
    ensures
        r@ == s@.filter(keeps_char(banned)),
{
    let n = s.unicode_len();
    let mut out: Vec<char> = Vec::new();
    let mut i: usize = 0;
    proof {
        reveal(Seq::filter);
        assert(s@.take(0) =~= Seq::<char>::empty());
        assert(s@.take(0).filter(keeps_char(banned)) =~= Seq::<char>::empty());
    }
    while i < n
        invariant
            i <= n,
            n == s@.len(),
            out@ == s@.take(i as int).filter(keeps_char(banned)),
        decreases n - i,
    {
        let c = s.get_char(i);
        proof {
            reveal(Seq::filter);
            let taken = s@.take(i + 1);
            assert(taken.drop_last() =~= s@.take(i as int));
            assert(taken.last() == s@[i as int]);
            assert(keeps_char(banned)(s@[i as int]) == (s@[i as int] != banned));
            assert(taken.filter(keeps_char(banned)) == if keeps_char(banned)(taken.last()) {
                taken.drop_last().filter(keeps_char(banned)).push(taken.last())
            } else {
                taken.drop_last().filter(keeps_char(banned))
            });
        }
        if c != banned {
            out.push(c);
        }
        i = i + 1;
    }
    proof {
        assert(s@.take(n as int) =~= s@);
    }
    out
}

/// Whether the character vector holds exactly the characters of `s`.
pub fn chars_eq_str(v: &Vec<char>, s: &str) -> (r: bool)
    ensures
        r == (v@ == s@),
{
    let n = s.unicode_len();
    if v.len() != n {
        proof {
            assert(v@.len() != s@.len());
        }
        return false;
    }
    let mut i: usize = 0;
    while i < n
        invariant
            i <= n,
            n == s@.len(),
            v@.len() == n,
            forall|j: int| 0 <= j < i ==> v@[j] == s@[j],
        decreases n - i,
    {
        if v[i] != s.get_char(i) {
            return false;
        }
        i = i + 1;
    }
    proof {
        assert(v@ =~= s@);
    }
    true
}

} // verus!
