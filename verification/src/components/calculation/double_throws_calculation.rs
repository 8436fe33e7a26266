use vstd::prelude::*;
use crate::components::calculation::common::{is_finish, spec_is_finish};
use crate::components::calculation::recommendation_calculation::{determine_rec, RecValue};
use crate::domain::Score;

verus! {

/// Whether, and how, to ask how many darts were thrown at a double in a visit.
#[derive(Clone, Debug, PartialEq, Eq)]
pub enum HowManyOnDouble {
    NotRelevant,
    OnlyOne,
    NeedEntry(Vec<u16>),
}

/// The question is relevant when the visit started on a finish and did not end
/// above 50 with darts thrown.
pub open spec fn double_entry_relevant(last_remaining: int, new_remaining: int, new_thrown: int) -> bool {
    spec_is_finish(last_remaining) && !(new_remaining > 50 && new_thrown != 0)
}

/// Whether `x` darts at a double is a possible answer: 0 to 3, not 0 after a checkout,
/// at most 1 from above 110 (only the last dart can reach a double), and 3 only from
/// an even score up to 40 or from 50.
pub open spec fn double_attempt_possible(x: int, last_remaining: int, new_remaining: int) -> bool {
    &&& 0 <= x <= 3
    &&& !(x == 0 && new_remaining == 0)
    &&& !(last_remaining > 110 && (x == 2 || x == 3))
    &&& !(x == 3 && (last_remaining % 2 == 1 || (last_remaining > 40 && last_remaining != 50)))
}

/// The possible answers from `k` up to 3, in ascending order.
pub open spec fn double_attempt_options_from(k: int, last_remaining: int, new_remaining: int) -> Seq<u16>
    decreases 4 - k,
{
    if k >= 4 || k < 0 {
        Seq::empty()
    } else if double_attempt_possible(k, last_remaining, new_remaining) {
        seq![k as u16] + double_attempt_options_from(k + 1, last_remaining, new_remaining)
    } else {
        double_attempt_options_from(k + 1, last_remaining, new_remaining)
    }
}

/// The possible answers, in ascending order.
pub open spec fn double_attempt_options(last_remaining: int, new_remaining: int) -> Seq<u16> {
    double_attempt_options_from(0, last_remaining, new_remaining)
}

proof fn lemma_options_from_members(k: int, last_remaining: int, new_remaining: int)
    requires
        0 <= k <= 4,
    ensures
        forall|x: u16| #[trigger] double_attempt_options_from(k, last_remaining, new_remaining).contains(x)
            <==> (k <= x && double_attempt_possible(x as int, last_remaining, new_remaining)),
        forall|i: int, j: int|
            0 <= i < j < double_attempt_options_from(k, last_remaining, new_remaining).len() ==>
                double_attempt_options_from(k, last_remaining, new_remaining)[i]
                    < double_attempt_options_from(k, last_remaining, new_remaining)[j],
        forall|i: int|
            0 <= i < double_attempt_options_from(k, last_remaining, new_remaining).len() ==>
                k <= #[trigger] double_attempt_options_from(k, last_remaining, new_remaining)[i],
    decreases 4 - k,
{
    if k < 4 {
        lemma_options_from_members(k + 1, last_remaining, new_remaining);
        let rest = double_attempt_options_from(k + 1, last_remaining, new_remaining);
        if double_attempt_possible(k, last_remaining, new_remaining) {
            let all = seq![k as u16] + rest;
            assert forall|x: u16| all.contains(x) <==> (k <= x && double_attempt_possible(x as int, last_remaining, new_remaining)) by {
                if x == k {
                    assert(all[0] == x);
                } else if all.contains(x) {
                    let i = choose|i: int| 0 <= i < all.len() && all[i] == x;
                    assert(i > 0);
                    assert(rest[i - 1] == x);
                    assert(rest.contains(x));
                } else if k < x && double_attempt_possible(x as int, last_remaining, new_remaining) {
                    assert(rest.contains(x));
                    let i = choose|i: int| 0 <= i < rest.len() && rest[i] == x;
                    assert(all[i + 1] == x);
                }
            }
            assert forall|i: int| 0 <= i < all.len() implies k <= #[trigger] all[i] by {
                if i > 0 {
                    assert(all[i] == rest[i - 1]);
                }
            }
        }
    }
}

/// For the visit `new_score` that followed `last_score`, whether to ask how many
/// darts went at a double, and which answers are possible.
pub fn ask_for_double_entry(last_score: &Score, new_score: &Score) -> (res: HowManyOnDouble)
    ensures
        (res is NotRelevant) <==> !double_entry_relevant(
            last_score.remaining as int,
            new_score.remaining as int,
            new_score.thrown as int,
        ),
        res is OnlyOne ==> double_attempt_options(last_score.remaining as int, new_score.remaining as int)
            == seq![1u16],
        res matches HowManyOnDouble::NeedEntry(v) ==> v@ == double_attempt_options(
            last_score.remaining as int,
            new_score.remaining as int,
        ) && v@.len() >= 2,
{
    if is_finish(last_score.remaining) {
        if new_score.remaining > 50 && new_score.thrown != 0 {
            HowManyOnDouble::NotRelevant
        } else {
            let last_remaining = last_score.remaining;
            let new_remaining = new_score.remaining;
            let ghost lr = last_remaining as int;
            let ghost nr = new_remaining as int;
            let mut exclude_three = false;
            if last_remaining >= 99 && last_remaining < 110 {
                match determine_rec(last_remaining) {
                    RecValue::IsFinish(finish) => {
                        match finish.primary_rec {
                            Some(val) => {
                                if val.len() == 3 {
                                    exclude_three = true;
                                }
                            },
                            None => {},
                        }
                    },
                    RecValue::NoFinish(_) => {},
                }
            }
            if last_remaining % 2 == 1 || (last_remaining > 40 && last_remaining != 50) {
                exclude_three = true;
            }
            proof {
                lemma_options_from_members(0, lr, nr);
            }
            let mut double_attempt_vector: Vec<u16> = Vec::new();
            let mut x: u16 = 0;
            while x < 4
                invariant
                    x <= 4,
                    lr == last_remaining,
                    nr == new_remaining,
                    exclude_three == (last_remaining % 2 == 1 || (last_remaining > 40 && last_remaining != 50)),
                    double_attempt_options(lr, nr) == double_attempt_vector@ + double_attempt_options_from(x as int, lr, nr),
                decreases 4 - x,
            {
                let keep = !(x == 0 && new_remaining == 0) && !(last_remaining > 110 && (x == 2 || x == 3))
                    && !(x == 3 && exclude_three);
                let ghost before = double_attempt_vector@;
                if keep {
                    double_attempt_vector.push(x);
                    assert(before + double_attempt_options_from(x as int, lr, nr)
                        =~= double_attempt_vector@ + double_attempt_options_from(x + 1, lr, nr));
                }
                x = x + 1;
            }
            assert(double_attempt_options_from(4, lr, nr) =~= Seq::<u16>::empty());
            assert(double_attempt_vector@ =~= double_attempt_options(lr, nr));
            assert(double_attempt_options(lr, nr).contains(1u16));
            if double_attempt_vector.len() == 1 {
                assert(double_attempt_vector@[0] == 1) by {
                    let i = choose|i: int| 0 <= i < double_attempt_vector@.len() && double_attempt_vector@[i] == 1u16;
                }
                assert(double_attempt_vector@ =~= seq![1u16]);
                return HowManyOnDouble::OnlyOne;
            }
            assert(double_attempt_vector@.len() != 0) by {
                let i = choose|i: int| 0 <= i < double_attempt_vector@.len() && double_attempt_vector@[i] == 1u16;
            }
            HowManyOnDouble::NeedEntry(double_attempt_vector)
        }
    } else {
        HowManyOnDouble::NotRelevant
    }
}

/// Law: after a checkout, 0 darts at a double is never offered.
pub proof fn law_no_zero_after_checkout(last_remaining: u16)
    ensures
        !double_attempt_options(last_remaining as int, 0).contains(0u16),
{
    lemma_options_from_members(0, last_remaining as int, 0);
}

/// Law: 3 darts at a double are offered only from an even score up to 40 or from 50.
pub proof fn law_three_only_on_two_dart_doubles(last_remaining: u16, new_remaining: u16)
    ensures
        double_attempt_options(last_remaining as int, new_remaining as int).contains(3u16) ==> (
        (last_remaining <= 40 && last_remaining % 2 == 0) || last_remaining == 50),
{
    lemma_options_from_members(0, last_remaining as int, new_remaining as int);
}

/// Law: which answers are offered, in terms of the visit alone: 1 always; 0 unless
/// the visit checked out; 2 unless the visit started above 110; 3 exactly when it
/// started from an even score up to 40 or from 50; nothing else.
pub proof fn law_double_attempt_answers(last_remaining: u16, new_remaining: u16)
    ensures
        double_attempt_options(last_remaining as int, new_remaining as int).contains(1u16),
        double_attempt_options(last_remaining as int, new_remaining as int).contains(0u16) <==> new_remaining != 0,
        double_attempt_options(last_remaining as int, new_remaining as int).contains(2u16) <==> last_remaining <= 110,
        double_attempt_options(last_remaining as int, new_remaining as int).contains(3u16) <==> (
        (last_remaining <= 40 && last_remaining % 2 == 0) || last_remaining == 50),
        forall|x: u16| #[trigger]
            double_attempt_options(last_remaining as int, new_remaining as int).contains(x) ==> x <= 3,
{
    lemma_options_from_members(0, last_remaining as int, new_remaining as int);
}

/// Law: from above 110 a checkout asks nothing (one dart), and a failed attempt
/// leaves only 0 or 1.
pub proof fn law_above_110_at_most_one(last_remaining: u16, new_remaining: u16)
    requires
        last_remaining > 110,
    ensures
        new_remaining == 0 ==> double_attempt_options(last_remaining as int, new_remaining as int) =~= seq![1u16],
        new_remaining != 0 ==> double_attempt_options(last_remaining as int, new_remaining as int) =~= seq![0u16, 1u16],
{
    reveal_with_fuel(double_attempt_options_from, 5);
}

} // verus!
