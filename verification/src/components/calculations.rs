use vstd::prelude::*;
use std::collections::HashSet;
use crate::components::calculation::common::{bogey_numbers, contains_u16, is_bogey_number, spec_is_finish};
use crate::domain::CurrentScore;

verus! {

broadcast use vstd::std_specs::hash::group_hash_axioms;

/// What one dart can score: a single 0 to 20, the outer bull 25, the bull 50,
/// a double up to 40 or a triple up to 60.
pub open spec fn is_dart_value(v: int) -> bool {
    ||| 0 <= v <= 20
    ||| v == 25
    ||| v == 50
    ||| (0 <= v <= 40 && v % 2 == 0)
    ||| (0 <= v <= 60 && v % 3 == 0)
}

/// What three darts can score together.
pub open spec fn is_three_dart_total(v: int) -> bool {
    exists|a: int, b: int, c: int|
        is_dart_value(a) && is_dart_value(b) && is_dart_value(c) && a + b + c == v
}

/// (a, b, c) comes before (i, j, k) in lexicographic order.
pub open spec fn lex_before(a: int, b: int, c: int, i: int, j: int, k: int) -> bool {
    a < i || (a == i && b < j) || (a == i && b == j && c < k)
}

/// The sums of the triples of `all` that come before (i, j, k).
pub open spec fn sums_before(all: Seq<u16>, i: int, j: int, k: int) -> Set<u16> {
    Set::new(
        |x: u16|
            exists|a: int, b: int, c: int|
                0 <= a < all.len() && 0 <= b < all.len() && 0 <= c < all.len() && lex_before(
                    a,
                    b,
                    c,
                    i,
                    j,
                    k,
                ) && all[a] + all[b] + all[c] == x,
    )
}

/// The distinct values one dart can score, in ascending order.
fn dart_values() -> (all: Vec<u16>)
    ensures
        forall|v: int| is_dart_value(v) <==> exists|i: int| 0 <= i < all.len() && all@[i] == v,
        forall|i: int| 0 <= i < all.len() ==> all@[i] <= 60,
{
    let mut all: Vec<u16> = Vec::new();
    let mut v: u16 = 0;
    while v <= 60
        invariant
            v <= 61,
            forall|w: int| 0 <= w < v ==> (is_dart_value(w) <==> exists|i: int|
                0 <= i < all.len() && all@[i] == w),
            forall|i: int| 0 <= i < all.len() ==> all@[i] < v && is_dart_value(all@[i] as int),
        decreases 61 - v,
    {
        let ghost old_all = all@;
        if v <= 20 || v == 25 || v == 50 || (v <= 40 && v % 2 == 0) || v % 3 == 0 {
            all.push(v);
            assert(all@[all.len() - 1] == v);
        }
        assert forall|w: int| 0 <= w < v + 1 implies (is_dart_value(w) <==> exists|i: int|
            0 <= i < all.len() && all@[i] == w) by {
            if w < v {
                if exists|i: int| 0 <= i < old_all.len() && old_all[i] == w {
                    let i = choose|i: int| 0 <= i < old_all.len() && old_all[i] == w;
                    assert(all@[i] == w);
                }
                if exists|i: int| 0 <= i < all.len() && all@[i] == w {
                    let i = choose|i: int| 0 <= i < all.len() && all@[i] == w;
                    assert(i < old_all.len());
                    assert(old_all[i] == w);
                }
            } else {
                if exists|i: int| 0 <= i < all.len() && all@[i] == w {
                    let i = choose|i: int| 0 <= i < all.len() && all@[i] == w;
                    assert(i >= old_all.len());
                }
            }
        }
        v = v + 1;
    }
    assert forall|w: int| is_dart_value(w) <==> exists|i: int| 0 <= i < all.len() && all@[i] == w by {
        if exists|i: int| 0 <= i < all.len() && all@[i] == w {
            let i = choose|i: int| 0 <= i < all.len() && all@[i] == w;
            assert(is_dart_value(all@[i] as int));
        }
    }
    all
}

proof fn lemma_sums_step(all: Seq<u16>, i: int, j: int, k: int)
    requires
        forall|t: int| 0 <= t < all.len() ==> all[t] <= 60,
        0 <= i < all.len(),
        0 <= j < all.len(),
        0 <= k < all.len(),
    ensures
        sums_before(all, i, j, k + 1) == sums_before(all, i, j, k).insert(
            (all[i] + all[j] + all[k]) as u16,
        ),
{
    let s1 = sums_before(all, i, j, k + 1);
    let s0 = sums_before(all, i, j, k);
    assert forall|x: u16| s1.contains(x) implies s0.insert((all[i] + all[j] + all[k]) as u16).contains(x) by {
        let (a, b, c) = choose|a: int, b: int, c: int|
            0 <= a < all.len() && 0 <= b < all.len() && 0 <= c < all.len() && lex_before(
                a, b, c, i, j, k + 1,
            ) && all[a] + all[b] + all[c] == x;
        if !(a == i && b == j && c == k) {
            assert(lex_before(a, b, c, i, j, k));
        }
    }
    assert forall|x: u16| s0.insert((all[i] + all[j] + all[k]) as u16).contains(x) implies s1.contains(x) by {
        if s0.contains(x) {
            let (a, b, c) = choose|a: int, b: int, c: int|
                0 <= a < all.len() && 0 <= b < all.len() && 0 <= c < all.len() && lex_before(
                    a, b, c, i, j, k,
                ) && all[a] + all[b] + all[c] == x;
            assert(lex_before(a, b, c, i, j, k + 1));
        } else {
            assert(lex_before(i, j, k, i, j, k + 1));
        }
    }
    assert(s1 =~= s0.insert((all[i] + all[j] + all[k]) as u16));
}

proof fn lemma_sums_row_end(all: Seq<u16>, i: int, j: int)
    ensures
        sums_before(all, i, j, all.len() as int) == sums_before(all, i, j + 1, 0),
        sums_before(all, i, all.len() as int, 0) == sums_before(all, i + 1, 0, 0),
{
    let n = all.len() as int;
    assert forall|x: u16| sums_before(all, i, j, n).contains(x) == sums_before(all, i, j + 1, 0).contains(x) by {
        if sums_before(all, i, j, n).contains(x) {
            let (a, b, c) = choose|a: int, b: int, c: int|
                0 <= a < n && 0 <= b < n && 0 <= c < n && lex_before(a, b, c, i, j, n)
                    && all[a] + all[b] + all[c] == x;
            assert(lex_before(a, b, c, i, j + 1, 0));
        }
        if sums_before(all, i, j + 1, 0).contains(x) {
            let (a, b, c) = choose|a: int, b: int, c: int|
                0 <= a < n && 0 <= b < n && 0 <= c < n && lex_before(a, b, c, i, j + 1, 0)
                    && all[a] + all[b] + all[c] == x;
            assert(lex_before(a, b, c, i, j, n));
        }
    }
    assert(sums_before(all, i, j, n) =~= sums_before(all, i, j + 1, 0));
    assert forall|x: u16| sums_before(all, i, n, 0).contains(x) == sums_before(all, i + 1, 0, 0).contains(x) by {
        if sums_before(all, i, n, 0).contains(x) {
            let (a, b, c) = choose|a: int, b: int, c: int|
                0 <= a < n && 0 <= b < n && 0 <= c < n && lex_before(a, b, c, i, n, 0)
                    && all[a] + all[b] + all[c] == x;
            assert(lex_before(a, b, c, i + 1, 0, 0));
        }
        if sums_before(all, i + 1, 0, 0).contains(x) {
            let (a, b, c) = choose|a: int, b: int, c: int|
                0 <= a < n && 0 <= b < n && 0 <= c < n && lex_before(a, b, c, i + 1, 0, 0)
                    && all[a] + all[b] + all[c] == x;
            assert(lex_before(a, b, c, i, n, 0));
        }
    }
    assert(sums_before(all, i, n, 0) =~= sums_before(all, i + 1, 0, 0));
}

/// Every score that three darts can make.
fn possible_values() -> (sums: HashSet<u16>)
    ensures
        forall|x: u16| sums@.contains(x) <==> is_three_dart_total(x as int),
{
    let all = dart_values();
    let n = all.len();
    let mut sums: HashSet<u16> = HashSet::new();
    assert(sums@ =~= sums_before(all@, 0, 0, 0));
    let mut i: usize = 0;
    while i < n
        invariant
            n == all.len(),
            i <= n,
            forall|t: int| 0 <= t < all.len() ==> all@[t] <= 60,
            sums@ == sums_before(all@, i as int, 0, 0),
        decreases n - i,
    {
        let mut j: usize = 0;
        while j < n
            invariant
                n == all.len(),
                i < n,
                j <= n,
                forall|t: int| 0 <= t < all.len() ==> all@[t] <= 60,
                sums@ == sums_before(all@, i as int, j as int, 0),
            decreases n - j,
        {
            let mut k: usize = 0;
            while k < n
                invariant
                    n == all.len(),
                    i < n,
                    j < n,
                    k <= n,
                    forall|t: int| 0 <= t < all.len() ==> all@[t] <= 60,
                    sums@ == sums_before(all@, i as int, j as int, k as int),
                decreases n - k,
            {
                proof {
                    lemma_sums_step(all@, i as int, j as int, k as int);
                }
                sums.insert(all[i] + all[j] + all[k]);
                k = k + 1;
            }
            proof {
                lemma_sums_row_end(all@, i as int, j as int);
            }
            j = j + 1;
        }
        proof {
            lemma_sums_row_end(all@, i as int, n as int);
        }
        i = i + 1;
    }
    assert forall|x: u16| sums@.contains(x) <==> is_three_dart_total(x as int) by {
        if sums@.contains(x) {
            let (a, b, c) = choose|a: int, b: int, c: int|
                0 <= a < n && 0 <= b < n && 0 <= c < n && lex_before(a, b, c, n as int, 0, 0)
                    && all@[a] + all@[b] + all@[c] == x;
            assert(is_dart_value(all@[a] as int));
            assert(is_dart_value(all@[b] as int));
            assert(is_dart_value(all@[c] as int));
        }
        if is_three_dart_total(x as int) {
            let (va, vb, vc) = choose|a: int, b: int, c: int|
                is_dart_value(a) && is_dart_value(b) && is_dart_value(c) && a + b + c == x;
            let a = choose|t: int| 0 <= t < all.len() && all@[t] == va;
            let b = choose|t: int| 0 <= t < all.len() && all@[t] == vb;
            let c = choose|t: int| 0 <= t < all.len() && all@[t] == vc;
            assert(lex_before(a, b, c, n as int, 0, 0));
            assert(sums_before(all@, n as int, 0, 0).contains(x));
        }
    }
    sums
}

/// Whether a visit can have scored `val`: at most 180, and a sum of three dart values.
pub fn valid_thrown(val: u16) -> (b: bool)
    ensures
        b == (val <= 180 && is_three_dart_total(val as int)),
        b == is_three_dart_total(val as int),
{
    let all_possible_values: HashSet<u16> = possible_values();
    if val > 180 {
        false
    } else if all_possible_values.contains(&val) {
        true
    } else {
        false
    }
}

/// Whether a visit may leave `possible_remaining`: never 1, and 0 only when the
/// visit itself (`val`) could have checked out.
pub open spec fn spec_check_possible_remaining(possible_remaining: int, val: int) -> bool {
    if possible_remaining == 1 {
        false
    } else if possible_remaining == 0 {
        !is_bogey_number(val) && 0 <= val < 170
    } else {
        true
    }
}

/// What is left after scoring `val` on `last_remaining`: the difference, unless
/// the visit busts (goes below zero, leaves 1, or finishes on an impossible value).
pub open spec fn spec_new_remaining(last_remaining: int, val: int) -> int {
    if val <= last_remaining && spec_check_possible_remaining(last_remaining - val, val) {
        last_remaining - val
    } else {
        last_remaining
    }
}

pub fn calculate_remaining(last: CurrentScore, val: u16, next_throw_order: u16) -> (res: CurrentScore)
    ensures
        res.remaining == spec_new_remaining(last.remaining as int, val as int),
        res.thrown == val,
        res.throw_order == next_throw_order,
        res.remaining <= last.remaining,
        res.remaining == 1 ==> last.remaining == 1,
        res.remaining == 0 && last.remaining != 0 ==> (val == last.remaining && (val == 1 || spec_is_finish(val as int))),
        res.remaining != last.remaining ==> res.remaining == last.remaining - val,
{
    let last_remaining = last.remaining;
    let new_remaining: u16;
    if val <= last_remaining && check_possible_remaining(last_remaining - val, val) {
        new_remaining = last_remaining - val;
    } else {
        new_remaining = last_remaining;
    }
    CurrentScore { remaining: new_remaining, thrown: val, throw_order: next_throw_order }
}

pub fn check_possible_remaining(possible_remaining: u16, val: u16) -> (b: bool)
    ensures
        b == spec_check_possible_remaining(possible_remaining as int, val as int),
{
    match possible_remaining {
        1 => false,
        0 => {
            let boogey_nr: Vec<u16> = bogey_numbers();
            if contains_u16(&boogey_nr, val) {
                false
            } else if val < 170 {
                true
            } else {
                false
            }
        },
        _ => true,
    }
}

/// Law: a visit of at least 2 may check out exactly when it is a finish.
pub proof fn law_checkout_only_on_finish(val: u16)
    requires
        val >= 2,
    ensures
        spec_check_possible_remaining(0, val as int) == spec_is_finish(val as int),
{
}

/// Law: a visit that is bust changes nothing, one that counts takes off what was thrown.
pub proof fn law_remaining_never_grows(last_remaining: u16, val: u16)
    ensures
        0 <= spec_new_remaining(last_remaining as int, val as int) <= last_remaining,
        spec_new_remaining(last_remaining as int, val as int) == last_remaining
            || spec_new_remaining(last_remaining as int, val as int) == last_remaining - val,
{
}

} // verus!
