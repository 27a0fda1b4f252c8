//! Display names: decimal rendering of numbers and the "Name (n)" suffix
//! that keeps the display names in a session distinct.
use crate::text::{chars_of, seq_equal, string_from_chars};
use vstd::prelude::*;
use vstd::relations::injective_on;
use vstd::set_lib::set_int_range;

verus! {

/// The decimal digit character for `d` (0 ≤ d < 10).
pub open spec fn digit_char(d: int) -> char {
    if d == 1 {
        '1'
    } else if d == 2 {
        '2'
    } else if d == 3 {
        '3'
    } else if d == 4 {
        '4'
    } else if d == 5 {
        '5'
    } else if d == 6 {
        '6'
    } else if d == 7 {
        '7'
    } else if d == 8 {
        '8'
    } else if d == 9 {
        '9'
    } else {
        '0'
    }
}

/// The value of a decimal digit character.
pub open spec fn digit_value(c: char) -> int {
    if c == '1' {
        1
    } else if c == '2' {
        2
    } else if c == '3' {
        3
    } else if c == '4' {
        4
    } else if c == '5' {
        5
    } else if c == '6' {
        6
    } else if c == '7' {
        7
    } else if c == '8' {
        8
    } else if c == '9' {
        9
    } else {
        0
    }
}

/// Decimal representation of `n`, without leading zeros.
pub open spec fn decimal(n: nat) -> Seq<char>
    decreases n,
{
    if n < 10 {
        seq![digit_char(n as int)]
    } else {
        decimal(n / 10).push(digit_char(n as int % 10))
    }
}

/// The number that the decimal digits `s` spell.
pub open spec fn decimal_value(s: Seq<char>) -> int
    decreases s.len(),
{
    if s.len() == 0 {
        0
    } else {
        decimal_value(s.drop_last()) * 10 + digit_value(s.last())
    }
}

proof fn lemma_decimal_value(n: nat)
    ensures
        decimal_value(decimal(n)) == n,
    decreases n,
{
    if n < 10 {
        assert(decimal(n).drop_last() =~= Seq::<char>::empty());
        assert(decimal_value(Seq::<char>::empty()) == 0);
    } else {
        lemma_decimal_value(n / 10);
        let d = decimal(n);
        assert(d.drop_last() =~= decimal(n / 10));
        assert(d.last() == digit_char(n as int % 10));
        assert(n == (n / 10) * 10 + n % 10);
    }
}

/// "`name` (`n`)".
pub open spec fn suffixed(name: Seq<char>, n: nat) -> Seq<char> {
    name + seq![' ', '('] + decimal(n) + seq![')']
}

proof fn lemma_suffixed_injective(name: Seq<char>, a: nat, b: nat)
    requires
        suffixed(name, a) == suffixed(name, b),
    ensures
        a == b,
{
    let sa = suffixed(name, a);
    let sb = suffixed(name, b);
    assert(sa.len() == name.len() + 3 + decimal(a).len());
    assert(sb.len() == name.len() + 3 + decimal(b).len());
    assert(decimal(a).len() == decimal(b).len());
    let lo: int = name.len() + 2int;
    assert(sa.subrange(lo, lo + decimal(a).len()) =~= decimal(a));
    assert(sb.subrange(lo, lo + decimal(b).len()) =~= decimal(b));
    lemma_decimal_value(a);
    lemma_decimal_value(b);
}

/// The least `n ≥ 2` such that "`name` (`n`)" is not in `taken`.
pub open spec fn first_free_suffix(name: Seq<char>, taken: Set<Seq<char>>) -> nat {
    choose|n: nat|
        2 <= n && !taken.contains(suffixed(name, n)) && forall|m: nat| 2 <= m < n ==> taken.contains(
            #[trigger] suffixed(name, m),
        )
}

/// `name` itself when no one uses it, otherwise "`name` (`n`)" for the
/// least free `n ≥ 2`.
pub open spec fn dedup_name(name: Seq<char>, taken: Set<Seq<char>>) -> Seq<char> {
    if !taken.contains(name) {
        name
    } else {
        suffixed(name, first_free_suffix(name, taken))
    }
}

/// Among "`name` (2)" … "`name` (k+2)" at least one is free when at most
/// `k` names are taken.
proof fn lemma_some_suffix_free(name: Seq<char>, taken: Set<Seq<char>>, k: nat)
    requires
        taken.finite(),
        taken.len() <= k,
    ensures
        exists|n: nat| 2 <= n <= k + 2 && !taken.contains(#[trigger] suffixed(name, n)),
{
    if forall|n: nat| 2 <= n <= k + 2 ==> taken.contains(#[trigger] suffixed(name, n)) {
        let r = set_int_range(2, k + 3int);
        vstd::set_lib::lemma_int_range(2, k + 3int);
        let f = |i: int| suffixed(name, i as nat);
        assert(injective_on(f, r)) by {
            assert forall|x1: int, x2: int| r.contains(x1) && r.contains(x2) && #[trigger] f(x1) == #[trigger] f(x2)
                implies x1 == x2 by {
                lemma_suffixed_injective(name, x1 as nat, x2 as nat);
            }
        }
        let img = r.map(f);
        vstd::set_lib::lemma_map_size(r, img, f);
        assert(img.subset_of(taken)) by {
            assert forall|s: Seq<char>| img.contains(s) implies taken.contains(s) by {
                let i = choose|i: int| r.contains(i) && f(i) == s;
                assert(taken.contains(suffixed(name, i as nat)));
            }
        }
        vstd::set_lib::lemma_len_subset(img, taken);
    }
}

/// The least free suffix exists and is at most `k + 2` when at most `k`
/// names are taken.
proof fn lemma_first_free_suffix(name: Seq<char>, taken: Set<Seq<char>>, k: nat)
    requires
        taken.finite(),
        taken.len() <= k,
    ensures
        ({
            let n = first_free_suffix(name, taken);
            &&& 2 <= n <= k + 2
            &&& !taken.contains(suffixed(name, n))
            &&& forall|m: nat| 2 <= m < n ==> taken.contains(#[trigger] suffixed(name, m))
        }),
{
    lemma_some_suffix_free(name, taken, k);
    let w = choose|n: nat| 2 <= n <= k + 2 && !taken.contains(#[trigger] suffixed(name, n));
    lemma_least_free(name, taken, w, 2);
}

proof fn lemma_least_free(name: Seq<char>, taken: Set<Seq<char>>, w: nat, lo: nat)
    requires
        2 <= lo <= w,
        !taken.contains(suffixed(name, w)),
        forall|m: nat| 2 <= m < lo ==> taken.contains(#[trigger] suffixed(name, m)),
    ensures
        ({
            let n = first_free_suffix(name, taken);
            &&& 2 <= n <= w
            &&& !taken.contains(suffixed(name, n))
            &&& forall|m: nat| 2 <= m < n ==> taken.contains(#[trigger] suffixed(name, m))
        }),
    decreases w - lo,
{
    if !taken.contains(suffixed(name, lo)) {
        let n = first_free_suffix(name, taken);
        if n > lo {
            assert(taken.contains(suffixed(name, lo)));
        }
        if n < lo {
            assert(taken.contains(suffixed(name, n)));
        }
    } else {
        lemma_least_free(name, taken, w, lo + 1);
    }
}

/// The character sequences of `v`.
pub open spec fn string_views(v: Seq<String>) -> Seq<Seq<char>> {
    v.map_values(|x: String| x@)
}

/// The character sequences of `v`.
pub open spec fn char_vec_views(v: Seq<Vec<char>>) -> Seq<Seq<char>> {
    v.map_values(|x: Vec<char>| x@)
}

/// Decimal digits of `n`.
pub fn decimal_chars(n: u32) -> (v: Vec<char>)
    ensures
        v@ == decimal(n as nat),
    decreases n,
{
    let digits = ['0', '1', '2', '3', '4', '5', '6', '7', '8', '9'];
    assert(digits@ =~= seq!['0', '1', '2', '3', '4', '5', '6', '7', '8', '9']);
    if n < 10 {
        let mut v: Vec<char> = Vec::new();
        v.push(digits[n as usize]);
        assert(v@ =~= decimal(n as nat));
        v
    } else {
        let mut v = decimal_chars(n / 10);
        v.push(digits[(n % 10) as usize]);
        v
    }
}

/// "`name` (`n`)" as characters.
fn suffixed_chars(name: &Vec<char>, n: u32) -> (v: Vec<char>)
    ensures
        v@ == suffixed(name@, n as nat),
{
    let mut v: Vec<char> = Vec::new();
    let len = name.len();
    let mut i: usize = 0;
    while i < len
        invariant
            len == name@.len(),
            i <= len,
            v@ == name@.take(i as int),
        decreases len - i,
    {
        v.push(name[i]);
        assert(v@ =~= name@.take(i + 1));
        i = i + 1;
    }
    assert(name@.take(len as int) =~= name@);
    v.push(' ');
    v.push('(');
    let d = decimal_chars(n);
    let dl = d.len();
    let ghost base = v@;
    let mut j: usize = 0;
    while j < dl
        invariant
            dl == d@.len(),
            j <= dl,
            v@ == base + d@.take(j as int),
        decreases dl - j,
    {
        v.push(d[j]);
        assert(v@ =~= base + d@.take(j + 1));
        j = j + 1;
    }
    assert(d@.take(dl as int) =~= d@);
    v.push(')');
    assert(v@ =~= suffixed(name@, n as nat));
    v
}

/// Whether `s` is one of `names`.
fn contains_name(names: &Vec<Vec<char>>, s: &Vec<char>) -> (r: bool)
    ensures
        r == char_vec_views(names@).contains(s@),
{
    let n = names.len();
    let ghost views = char_vec_views(names@);
    let mut i: usize = 0;
    while i < n
        invariant
            n == names@.len(),
            views == char_vec_views(names@),
            i <= n,
            forall|j: int| 0 <= j < i ==> views[j] != s@,
        decreases n - i,
    {
        if seq_equal(&names[i], s) {
            assert(views[i as int] == s@);
            return true;
        }
        i = i + 1;
    }
    false
}

/// `name` itself when it is not among `existing`, otherwise
/// "`name` (`n`)" for the least `n ≥ 2` not among `existing`.
pub fn deduplicate_name(name: &str, existing: &Vec<String>) -> (r: String)
    requires
        existing@.len() + 2 <= u32::MAX,
    ensures
        r@ == dedup_name(name@, string_views(existing@).to_set()),
        !string_views(existing@).contains(r@),
{
    let ghost views = string_views(existing@);
    let ghost taken = views.to_set();
    let mut names: Vec<Vec<char>> = Vec::new();
    let k = existing.len();
    let mut i: usize = 0;
    while i < k
        invariant
            k == existing@.len(),
            views == string_views(existing@),
            i <= k,
            names@.len() == i,
            char_vec_views(names@) == views.take(i as int),
        decreases k - i,
    {
        let c = chars_of(existing[i].as_str());
        assert(c@ == views[i as int]);
        let ghost before = names@;
        names.push(c);
        assert forall|j: int| 0 <= j < i + 1 implies char_vec_views(names@)[j] == views.take(
            i + 1,
        )[j] by {
            if j < i {
                assert(names@[j] == before[j]);
                assert(char_vec_views(before)[j] == views.take(i as int)[j]);
            }
        }
        assert(char_vec_views(names@) =~= views.take(i + 1));
        i = i + 1;
    }
    assert(views.take(k as int) =~= views);
    let base = chars_of(name);
    proof {
        views.lemma_cardinality_of_set();
        vstd::seq_lib::seq_to_set_is_finite(views);
    }
    if !contains_name(&names, &base) {
        assert(!taken.contains(name@));
        return name.to_owned();
    }
    proof {
        lemma_first_free_suffix(name@, taken, k as nat);
    }
    let ghost f = first_free_suffix(name@, taken);
    let mut n: u32 = 2;
    loop
        invariant
            2 <= n <= f,
            f <= k + 2,
            k + 2 <= u32::MAX,
            base@ == name@,
            views == string_views(existing@),
            char_vec_views(names@) == views,
            taken == views.to_set(),
            taken.contains(name@),
            f == first_free_suffix(name@, taken),
            !taken.contains(suffixed(name@, f)),
            forall|m: nat| 2 <= m < f ==> taken.contains(#[trigger] suffixed(name@, m)),
        decreases f - n,
    {
        let c = suffixed_chars(&base, n);
        if !contains_name(&names, &c) {
            proof {
                assert(!taken.contains(c@));
                if n < f {
                    assert(taken.contains(suffixed(name@, n as nat)));
                }
                assert(n == f);
                assert(dedup_name(name@, taken) == suffixed(name@, f));
            }
            let r = string_from_chars(&c);
            assert(r@ == suffixed(name@, f));
            return r;
        }
        proof {
            if n == f {
                assert(taken.contains(suffixed(name@, f)));
            }
        }
        n = n + 1;
    }
}

} // verus!
