use vstd::prelude::*;
use crate::backend::model::dart_score::DartScore;
use crate::backend::model::dart_set::DartSet;
use crate::domain::Metric;

verus! {

/// The order of the next set of a match: one after the latest, or 1 for the first.
pub fn next_set_order(latest_set_of_match: Option<&DartSet>) -> (order: u16)
    requires
        latest_set_of_match matches Some(s) ==> s.set_order < i32::MAX,
    ensures
        order == match latest_set_of_match {
            Some(s) => (s.set_order + 1) as u16,
            None => 1u16,
        },
{
    match latest_set_of_match {
        Some(val) => (val.set_order + 1) as u16,
        None => 1,
    }
}

/// The scores of all legs, each leg's first (opening) score left out.
pub open spec fn flat_tails(groups: Seq<Seq<DartScore>>) -> Seq<DartScore>
    decreases groups.len(),
{
    if groups.len() == 0 {
        Seq::empty()
    } else {
        flat_tails(groups.drop_last()) + groups.last().drop_first()
    }
}

pub open spec fn thrown_total(s: Seq<DartScore>) -> int
    decreases s.len(),
{
    if s.len() == 0 {
        0
    } else {
        thrown_total(s.drop_last()) + (s.last().thrown as u16)
    }
}

pub open spec fn hundred_plus_count(s: Seq<DartScore>) -> int
    decreases s.len(),
{
    if s.len() == 0 {
        0
    } else {
        hundred_plus_count(s.drop_last()) + if s.last().thrown >= 100 { 1int } else { 0int }
    }
}

pub open spec fn attempt_of(d: DartScore) -> u16 {
    match d.double_attempt {
        Some(v) => v as u16,
        None => 0u16,
    }
}

pub open spec fn double_attempt_total(s: Seq<DartScore>) -> int
    decreases s.len(),
{
    if s.len() == 0 {
        0
    } else {
        double_attempt_total(s.drop_last()) + attempt_of(s.last())
    }
}

/// The metric of the other legs of a set, from their scores (each leg's first
/// score aside): sum and number of visits, darts thrown, legs, 100+ visits and
/// darts at a double. With no visit at all, everything is 0.
pub open spec fn spec_compute_metric(groups: Seq<Seq<DartScore>>) -> Metric {
    let scores = flat_tails(groups);
    if scores.len() == 0 {
        Metric {
            sum: 0,
            score_amount: 0,
            throws: 0,
            amount_of_legs: 0,
            first_nine_per_leg_sum: 0,
            hundred_plus_amount: 0,
            double_attempts: 0,
        }
    } else {
        Metric {
            sum: thrown_total(scores) as u16,
            score_amount: scores.len() as u16,
            throws: (scores.len() * 3) as u16,
            amount_of_legs: groups.len() as u16,
            first_nine_per_leg_sum: 100,
            hundred_plus_amount: hundred_plus_count(scores) as u16,
            double_attempts: double_attempt_total(scores) as u16,
        }
    }
}

proof fn lemma_totals_prefix(s: Seq<DartScore>, i: int)
    requires
        0 <= i < s.len(),
    ensures
        thrown_total(s.take(i + 1)) == thrown_total(s.take(i)) + (s[i].thrown as u16),
        hundred_plus_count(s.take(i + 1)) == hundred_plus_count(s.take(i)) + if s[i].thrown >= 100 {
            1int
        } else {
            0int
        },
        double_attempt_total(s.take(i + 1)) == double_attempt_total(s.take(i)) + attempt_of(s[i]),
{
    assert(s.take(i + 1).drop_last() =~= s.take(i));
}

proof fn lemma_totals_monotone(s: Seq<DartScore>, i: int)
    requires
        0 <= i <= s.len(),
    ensures
        thrown_total(s.take(i)) <= thrown_total(s),
        double_attempt_total(s.take(i)) <= double_attempt_total(s),
        0 <= hundred_plus_count(s.take(i)) <= i,
    decreases s.len() - i,
{
    if i < s.len() {
        lemma_totals_prefix(s, i);
        lemma_totals_monotone(s, i + 1);
        lemma_hundred_count_bounded(s.take(i));
    } else {
        assert(s.take(i) =~= s);
        lemma_hundred_count_bounded(s);
    }
}

proof fn lemma_hundred_count_bounded(s: Seq<DartScore>)
    ensures
        0 <= hundred_plus_count(s) <= s.len(),
    decreases s.len(),
{
    if s.len() > 0 {
        lemma_hundred_count_bounded(s.drop_last());
    }
}

/// All scores of the groups, each group's first score left out.
fn collect_tails(score_groups: &Vec<Vec<DartScore>>) -> (scores: Vec<DartScore>)
    requires
        forall|g: int| 0 <= g < score_groups.len() ==> #[trigger] score_groups@[g].len() >= 1,
    ensures
        scores@ == flat_tails(score_groups@.map_values(|v: Vec<DartScore>| v@)),
{
    let ghost groups = score_groups@.map_values(|v: Vec<DartScore>| v@);
    let mut scores: Vec<DartScore> = Vec::new();
    let mut g: usize = 0;
    while g < score_groups.len()
        invariant
            g <= score_groups.len(),
            groups == score_groups@.map_values(|v: Vec<DartScore>| v@),
            forall|h: int| 0 <= h < score_groups.len() ==> #[trigger] score_groups@[h].len() >= 1,
            scores@ == flat_tails(groups.take(g as int)),
        decreases score_groups.len() - g,
    {
        let group = &score_groups[g];
        let ghost before = scores@;
        let mut k: usize = 1;
        assert(score_groups@[g as int].len() >= 1);
        assert(group.len() >= 1);
        assert(group@.subrange(1, 1) =~= Seq::<DartScore>::empty());
        assert(before + group@.subrange(1, 1) =~= before);
        while k < group.len()
            invariant
                1 <= k <= group.len(),
                scores@ == before + group@.subrange(1, k as int),
            decreases group.len() - k,
        {
            scores.push(group[k]);
            assert(group@.subrange(1, k + 1) =~= group@.subrange(1, k as int).push(group@[k as int]));
            k = k + 1;
        }
        assert(groups.take(g + 1).drop_last() =~= groups.take(g as int));
        assert(groups.take(g + 1).last() == group@);
        assert(group@.subrange(1, group.len() as int) =~= group@.drop_first());
        g = g + 1;
    }
    assert(groups.take(score_groups.len() as int) =~= groups);
    scores
}

/// The metric of the other legs of a set, one group of scores per leg, each
/// group starting with the leg's opening score.
pub fn compute_metric(score_groups: &Vec<Vec<DartScore>>) -> (metric: Metric)
    requires
        forall|g: int| 0 <= g < score_groups.len() ==> #[trigger] score_groups@[g].len() >= 1,
        thrown_total(flat_tails(score_groups@.map_values(|v: Vec<DartScore>| v@))) <= u16::MAX,
        double_attempt_total(flat_tails(score_groups@.map_values(|v: Vec<DartScore>| v@)))
            <= u16::MAX,
        flat_tails(score_groups@.map_values(|v: Vec<DartScore>| v@)).len() * 3 <= usize::MAX,
    ensures
        metric == spec_compute_metric(score_groups@.map_values(|v: Vec<DartScore>| v@)),
{
    let only_scores = collect_tails(score_groups);
    let ghost s = only_scores@;
    if only_scores.len() == 0 {
        Metric {
            sum: 0,
            score_amount: 0,
            throws: 0,
            amount_of_legs: 0,
            first_nine_per_leg_sum: 0,
            hundred_plus_amount: 0,
            double_attempts: 0,
        }
    } else {
        let mut sum: u16 = 0;
        let mut hundred_plus: usize = 0;
        let mut double_attempts: u16 = 0;
        let mut i: usize = 0;
        assert(s.take(0) =~= Seq::<DartScore>::empty());
        while i < only_scores.len()
            invariant
                s == only_scores@,
                i <= only_scores.len(),
                thrown_total(s) <= u16::MAX,
                double_attempt_total(s) <= u16::MAX,
                sum == thrown_total(s.take(i as int)),
                hundred_plus == hundred_plus_count(s.take(i as int)),
                double_attempts == double_attempt_total(s.take(i as int)),
            decreases only_scores.len() - i,
        {
            proof {
                lemma_totals_prefix(s, i as int);
                lemma_totals_monotone(s, i + 1);
            }
            let score = only_scores[i];
            sum = sum + score.thrown as u16;
            if score.thrown >= 100 {
                hundred_plus = hundred_plus + 1;
            }
            let attempt: u16 = match score.double_attempt {
                Some(v) => v as u16,
                None => 0,
            };
            double_attempts = double_attempts + attempt;
            i = i + 1;
        }
        assert(s.take(s.len() as int) =~= s);
        Metric {
            sum,
            score_amount: only_scores.len() as u16,
            throws: (only_scores.len() * 3) as u16,
            amount_of_legs: score_groups.len() as u16,
            hundred_plus_amount: hundred_plus as u16,
            first_nine_per_leg_sum: 100,
            double_attempts,
        }
    }
}

/// Whether `compute_metric` can run on these groups: every leg has its opening
/// score, and the totals fit the `u16` fields.
pub fn metric_computable(score_groups: &Vec<Vec<DartScore>>) -> (b: bool)
    ensures
        b == ((forall|g: int| 0 <= g < score_groups.len() ==> #[trigger] score_groups@[g].len() >= 1)
            && thrown_total(flat_tails(score_groups@.map_values(|v: Vec<DartScore>| v@))) <= u16::MAX
            && double_attempt_total(flat_tails(score_groups@.map_values(|v: Vec<DartScore>| v@)))
            <= u16::MAX && flat_tails(score_groups@.map_values(|v: Vec<DartScore>| v@)).len() * 3
            <= usize::MAX),
{
    let mut g: usize = 0;
    while g < score_groups.len()
        invariant
            g <= score_groups.len(),
            forall|h: int| 0 <= h < g ==> #[trigger] score_groups@[h].len() >= 1,
        decreases score_groups.len() - g,
    {
        if score_groups[g].len() == 0 {
            assert(score_groups@[g as int].len() == 0);
            return false;
        }
        g = g + 1;
    }
    let scores = collect_tails(score_groups);
    let ghost s = scores@;
    if scores.len() > usize::MAX / 3 {
        return false;
    }
    let mut sum: u32 = 0;
    let mut attempts: u32 = 0;
    let mut i: usize = 0;
    assert(s.take(0) =~= Seq::<DartScore>::empty());
    while i < scores.len()
        invariant
            s == scores@,
            s == flat_tails(score_groups@.map_values(|v: Vec<DartScore>| v@)),
            forall|h: int| 0 <= h < score_groups.len() ==> #[trigger] score_groups@[h].len() >= 1,
            i <= scores.len(),
            sum == thrown_total(s.take(i as int)),
            attempts == double_attempt_total(s.take(i as int)),
            sum <= u16::MAX,
            attempts <= u16::MAX,
        decreases scores.len() - i,
    {
        proof {
            lemma_totals_prefix(s, i as int);
        }
        sum = sum + scores[i].thrown as u16 as u32;
        let attempt: u16 = match scores[i].double_attempt {
            Some(v) => v as u16,
            None => 0,
        };
        attempts = attempts + attempt as u32;
        assert(sum == thrown_total(s.take(i + 1)));
        assert(attempts == double_attempt_total(s.take(i + 1)));
        if sum > 65535 || attempts > 65535 {
            proof {
                lemma_totals_monotone(s, i + 1);
            }
            assert(thrown_total(s) > u16::MAX || double_attempt_total(s) > u16::MAX);
            return false;
        }
        i = i + 1;
    }
    assert(s.take(s.len() as int) =~= s);
    true
}

} // verus!
