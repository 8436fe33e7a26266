use vstd::prelude::*;
use crate::components::calculation::statistic_calculation::{
    calculate_compare_value, enhance_average_value, enhance_set_average, first_three_average,
    leg_live_average, parse_stat_absolut_value, spec_calculate_compare_value,
    spec_enhance_average_value, spec_enhance_set_average, spec_first_three_average,
    spec_leg_live_average, spec_parse_stat_absolut_value, spec_value_or_zero, thrown_sum,
    CompareValue, StatAbsolutValue,
};
use crate::domain::{leg_status_text, Leg, LegStatus, Metric, Score};

verus! {

/// The figures of the statistics panel of a leg.
#[derive(Clone, Copy, Debug, PartialEq, Eq, Structural)]
pub struct ScoreStatistics {
    pub leg_average: StatAbsolutValue,
    pub set_average: StatAbsolutValue,
    pub average_trend: CompareValue,
    pub leg_throws: StatAbsolutValue,
    pub set_throws: StatAbsolutValue,
    pub throws_trend: CompareValue,
    pub leg_first_nine_average: StatAbsolutValue,
    pub leg_hundred_plus: StatAbsolutValue,
    pub set_hundred_plus: StatAbsolutValue,
    pub hundred_plus_trend: CompareValue,
    pub double_successes: StatAbsolutValue,
    pub double_attempts: StatAbsolutValue,
}

/// How many visits of `s` scored 100 or more.
pub open spec fn hundred_plus_visits(s: Seq<Score>) -> nat
    decreases s.len(),
{
    if s.len() == 0 {
        0
    } else {
        hundred_plus_visits(s.drop_last()) + if s.last().thrown >= 100 { 1nat } else { 0nat }
    }
}

/// The darts at a double noted in the visits of `s`.
pub open spec fn noted_double_attempts(s: Seq<Score>) -> int
    decreases s.len(),
{
    if s.len() == 0 {
        0
    } else {
        noted_double_attempts(s.drop_last()) + match s.last().double_attempt {
            Some(v) => v as int,
            None => 0int,
        }
    }
}

/// How many legs of `legs` other than the current one are finished.
pub open spec fn other_finished_legs(legs: Seq<Leg>, current_id: u16) -> nat
    decreases legs.len(),
{
    if legs.len() == 0 {
        0
    } else {
        other_finished_legs(legs.drop_last(), current_id) + if legs.last().id != current_id
            && legs.last().status@ == leg_status_text(LegStatus::Finished) {
            1nat
        } else {
            0nat
        }
    }
}

pub open spec fn is_finished_leg(leg: Leg) -> bool {
    leg.status@ == leg_status_text(LegStatus::Finished)
}

/// The legs won in the set: the finished other legs and the current leg if finished.
pub open spec fn double_successes_count(legs: Seq<Leg>, leg: Leg) -> nat {
    other_finished_legs(legs, leg.id) + if is_finished_leg(leg) { 1nat } else { 0nat }
}

pub open spec fn spec_leg_throws(scores: Seq<Score>) -> StatAbsolutValue {
    if scores.len() > 1 {
        StatAbsolutValue::HasValue(((scores.len() - 1) * 3) as u16)
    } else {
        StatAbsolutValue::NoValue
    }
}

pub open spec fn spec_leg_hundred_plus(scores: Seq<Score>) -> StatAbsolutValue {
    if scores.len() > 1 {
        StatAbsolutValue::HasValue(hundred_plus_visits(scores) as u16)
    } else {
        StatAbsolutValue::NoValue
    }
}

pub open spec fn spec_leg_double_attempts(scores: Seq<Score>) -> int {
    if scores.len() > 1 { noted_double_attempts(scores) } else { 0 }
}

pub open spec fn spec_set_stat(metric: Option<Metric>, finished: bool, leg_value: StatAbsolutValue, target: spec_fn(Metric) -> u16) -> StatAbsolutValue {
    match metric {
        Some(m) => if finished {
            spec_enhance_average_value(Some(leg_value), target(m), m.amount_of_legs)
        } else {
            spec_enhance_average_value(None, target(m), m.amount_of_legs)
        },
        None => StatAbsolutValue::NoValue,
    }
}

/// The statistics panel: leg figures from the leg's visits, set figures from the
/// metric of the other legs (with the current leg counted in once it is
/// finished), and the differences between them.
pub open spec fn spec_score_statistics(scores: Seq<Score>, legs: Seq<Leg>, leg: Leg, metric: Option<Metric>) -> ScoreStatistics {
    let leg_average = spec_leg_live_average(scores);
    let leg_throws = spec_leg_throws(scores);
    let leg_hundred_plus = spec_leg_hundred_plus(scores);
    let finished = is_finished_leg(leg);
    let set_average = match metric {
        Some(m) => spec_enhance_set_average(scores, m),
        None => StatAbsolutValue::NoValue,
    };
    let set_throws = spec_set_stat(metric, finished, leg_throws, |m: Metric| m.throws);
    let set_hundred_plus = spec_set_stat(metric, finished, leg_hundred_plus, |m: Metric| m.hundred_plus_amount);
    let attempts = spec_leg_double_attempts(scores) + match metric {
        Some(m) => m.double_attempts as int,
        None => 0int,
    };
    ScoreStatistics {
        leg_average,
        set_average,
        average_trend: spec_calculate_compare_value(leg_average, set_average),
        leg_throws,
        set_throws,
        throws_trend: spec_calculate_compare_value(leg_throws, set_throws),
        leg_first_nine_average: spec_first_three_average(scores),
        leg_hundred_plus,
        set_hundred_plus,
        hundred_plus_trend: spec_calculate_compare_value(leg_hundred_plus, set_hundred_plus),
        double_successes: spec_parse_stat_absolut_value(double_successes_count(legs, leg) as u16),
        double_attempts: spec_parse_stat_absolut_value(attempts as u16),
    }
}

/// What the computation needs not to overflow, as the panel computes in `u16`.
pub open spec fn statistics_computable(scores: Seq<Score>, legs: Seq<Leg>, metric: Option<Metric>, finished: bool) -> bool {
    &&& legs.len() < usize::MAX
    &&& thrown_sum(scores, 1, scores.len() as int) <= u16::MAX
    &&& scores.len() > 1 ==> ((scores.len() - 1) as u16) != 0
    &&& scores.len() > 1 ==> noted_double_attempts(scores) <= u16::MAX
    &&& scores.len() * 3 <= usize::MAX
    &&& metric matches Some(m) ==> {
        &&& spec_leg_double_attempts(scores) + m.double_attempts <= u16::MAX
        &&& m.sum + thrown_sum(scores, 1, scores.len() as int) <= u16::MAX
        &&& scores.len() > 0 ==> m.score_amount + ((scores.len() - 1) as u16) <= u16::MAX
        &&& finished ==> {
            &&& spec_value_or_zero(spec_leg_throws(scores)) + m.throws <= u16::MAX
            &&& spec_value_or_zero(spec_leg_hundred_plus(scores)) + m.hundred_plus_amount <= u16::MAX
            &&& m.amount_of_legs < u16::MAX
        }
    }
}

proof fn lemma_thrown_sum_prefix_bound(s: Seq<Score>, from: int, mid: int, to: int)
    requires
        from <= mid <= to,
    ensures
        thrown_sum(s, from, mid) <= thrown_sum(s, from, to),
    decreases to - mid,
{
    if mid < to {
        lemma_thrown_sum_prefix_bound(s, from, mid, to - 1);
    }
}

proof fn lemma_score_counts_prefix(s: Seq<Score>, i: int)
    requires
        0 <= i < s.len(),
    ensures
        hundred_plus_visits(s.take(i + 1)) == hundred_plus_visits(s.take(i)) + if s[i].thrown >= 100 {
            1nat
        } else {
            0nat
        },
        noted_double_attempts(s.take(i + 1)) == noted_double_attempts(s.take(i)) + match s[i].double_attempt {
            Some(v) => v as int,
            None => 0int,
        },
{
    assert(s.take(i + 1).drop_last() =~= s.take(i));
}

proof fn lemma_score_counts_bounds(s: Seq<Score>, i: int)
    requires
        0 <= i <= s.len(),
    ensures
        noted_double_attempts(s.take(i)) <= noted_double_attempts(s),
        hundred_plus_visits(s.take(i)) <= i,
    decreases s.len() - i,
{
    if i < s.len() {
        lemma_score_counts_prefix(s, i);
        lemma_score_counts_bounds(s, i + 1);
        lemma_hundred_bounded(s.take(i));
    } else {
        assert(s.take(i) =~= s);
        lemma_hundred_bounded(s);
    }
}

proof fn lemma_hundred_bounded(s: Seq<Score>)
    ensures
        hundred_plus_visits(s) <= s.len(),
    decreases s.len(),
{
    if s.len() > 0 {
        lemma_hundred_bounded(s.drop_last());
    }
}

proof fn lemma_legs_prefix(legs: Seq<Leg>, id: u16, i: int)
    requires
        0 <= i < legs.len(),
    ensures
        other_finished_legs(legs.take(i + 1), id) == other_finished_legs(legs.take(i), id) + if legs[i].id
            != id && legs[i].status@ == leg_status_text(LegStatus::Finished) {
            1nat
        } else {
            0nat
        },
        other_finished_legs(legs.take(i), id) <= i,
    decreases i,
{
    assert(legs.take(i + 1).drop_last() =~= legs.take(i));
    if i > 0 {
        lemma_legs_prefix(legs, id, i - 1);
    } else {
        assert(legs.take(0) =~= Seq::<Leg>::empty());
    }
}

/// Hundred-plus visits and noted darts at a double over the visits of a leg.
fn leg_counts(scores: &Vec<Score>) -> (res: (usize, u16))
    requires
        noted_double_attempts(scores@) <= u16::MAX,
    ensures
        res.0 == hundred_plus_visits(scores@),
        res.1 == noted_double_attempts(scores@),
{
    let ghost s = scores@;
    let mut hundred: usize = 0;
    let mut attempts: u16 = 0;
    let mut i: usize = 0;
    assert(s.take(0) =~= Seq::<Score>::empty());
    while i < scores.len()
        invariant
            s == scores@,
            i <= scores.len(),
            noted_double_attempts(s) <= u16::MAX,
            hundred == hundred_plus_visits(s.take(i as int)),
            attempts == noted_double_attempts(s.take(i as int)),
        decreases scores.len() - i,
    {
        proof {
            lemma_score_counts_prefix(s, i as int);
            lemma_score_counts_bounds(s, i + 1);
        }
        if scores[i].thrown >= 100 {
            hundred = hundred + 1;
        }
        match scores[i].double_attempt {
            Some(v) => {
                attempts = attempts + v;
            },
            None => {},
        }
        i = i + 1;
    }
    assert(s.take(s.len() as int) =~= s);
    (hundred, attempts)
}

/// The legs won in the set, the current leg taken from `leg` rather than from `legs`.
fn count_double_successes(legs: &Vec<Leg>, leg: &Leg) -> (n: usize)
    requires
        legs@.len() < usize::MAX,
    ensures
        n == double_successes_count(legs@, *leg),
{
    let finished_text = LegStatus::Finished.display();
    let mut n: usize = 0;
    let mut i: usize = 0;
    assert(legs@.take(0) =~= Seq::<Leg>::empty());
    while i < legs.len()
        invariant
            i <= legs.len(),
            finished_text@ == leg_status_text(LegStatus::Finished),
            n == other_finished_legs(legs@.take(i as int), leg.id),
        decreases legs.len() - i,
    {
        proof {
            lemma_legs_prefix(legs@, leg.id, i as int);
        }
        if legs[i].id != leg.id && legs[i].status == finished_text {
            n = n + 1;
        }
        i = i + 1;
    }
    assert(legs@.take(legs.len() as int) =~= legs@);
    proof {
        if legs.len() > 0 {
            lemma_legs_prefix(legs@, leg.id, legs.len() - 1);
            assert(legs@.take(legs.len() - 1 + 1) =~= legs@);
        }
    }
    if leg.status == finished_text {
        n + 1
    } else {
        n
    }
}

/// How many legs of `legs` are finished.
pub open spec fn finished_legs(legs: Seq<Leg>) -> nat
    decreases legs.len(),
{
    if legs.len() == 0 {
        0
    } else {
        finished_legs(legs.drop_last()) + if is_finished_leg(legs.last()) { 1nat } else { 0nat }
    }
}

/// How many legs of `legs` with the id `id` are finished.
spec fn finished_with_id(legs: Seq<Leg>, id: u16) -> nat
    decreases legs.len(),
{
    if legs.len() == 0 {
        0
    } else {
        finished_with_id(legs.drop_last(), id) + if legs.last().id == id && is_finished_leg(legs.last()) {
            1nat
        } else {
            0nat
        }
    }
}

/// No two legs of `legs` share an id.
pub open spec fn distinct_leg_ids(legs: Seq<Leg>) -> bool {
    forall|i: int, j: int| 0 <= i < j < legs.len() ==> #[trigger] legs[i].id != #[trigger] legs[j].id
}

proof fn lemma_finished_split(legs: Seq<Leg>, id: u16)
    ensures
        other_finished_legs(legs, id) + finished_with_id(legs, id) == finished_legs(legs),
    decreases legs.len(),
{
    if legs.len() > 0 {
        lemma_finished_split(legs.drop_last(), id);
    }
}

proof fn lemma_finished_id_absent(legs: Seq<Leg>, id: u16)
    requires
        forall|i: int| 0 <= i < legs.len() ==> #[trigger] legs[i].id != id,
    ensures
        finished_with_id(legs, id) == 0,
    decreases legs.len(),
{
    if legs.len() > 0 {
        let d = legs.drop_last();
        assert forall|i: int| 0 <= i < d.len() implies #[trigger] d[i].id != id by {
            assert(d[i] == legs[i]);
        }
        lemma_finished_id_absent(d, id);
    }
}

proof fn lemma_finished_id_once(legs: Seq<Leg>, id: u16, k: int)
    requires
        distinct_leg_ids(legs),
        0 <= k < legs.len(),
        legs[k].id == id,
    ensures
        finished_with_id(legs, id) == if is_finished_leg(legs[k]) { 1nat } else { 0nat },
    decreases legs.len(),
{
    let d = legs.drop_last();
    let n = legs.len() as int;
    if k == n - 1 {
        assert forall|i: int| 0 <= i < d.len() implies #[trigger] d[i].id != id by {
            assert(d[i] == legs[i]);
            assert(legs[i].id != legs[n - 1].id);
        }
        lemma_finished_id_absent(d, id);
    } else {
        assert forall|i: int, j: int| 0 <= i < j < d.len() implies #[trigger] d[i].id != #[trigger] d[j].id by {
            assert(d[i] == legs[i] && d[j] == legs[j]);
            assert(legs[i].id != legs[j].id);
        }
        assert(d[k] == legs[k]);
        lemma_finished_id_once(d, id, k);
        assert(legs[k].id != legs[n - 1].id);
    }
}

proof fn lemma_other_legs_ignore_current_entry(legs: Seq<Leg>, id: u16, k: int, other: Leg)
    requires
        0 <= k < legs.len(),
        legs[k].id == id,
        other.id == id,
    ensures
        other_finished_legs(legs.update(k, other), id) == other_finished_legs(legs, id),
    decreases legs.len(),
{
    let u = legs.update(k, other);
    let n = legs.len() as int;
    if k == n - 1 {
        assert(u.drop_last() =~= legs.drop_last());
    } else {
        assert(u.drop_last() =~= legs.drop_last().update(k, other));
        lemma_other_legs_ignore_current_entry(legs.drop_last(), id, k, other);
        assert(u.last() == legs.last());
    }
}

/// Law: every trend of the panel is the leg figure minus the set figure, known
/// exactly when both figures are (so it is positive exactly when the leg figure
/// is the larger).
pub proof fn law_trends_are_leg_minus_set(scores: Seq<Score>, legs: Seq<Leg>, leg: Leg, metric: Option<Metric>)
    ensures
        ({
            let st = spec_score_statistics(scores, legs, leg, metric);
            &&& (st.average_trend is HasValue) == (st.leg_average is HasValue && st.set_average is HasValue)
            &&& (st.throws_trend is HasValue) == (st.leg_throws is HasValue && st.set_throws is HasValue)
            &&& (st.hundred_plus_trend is HasValue) == (st.leg_hundred_plus is HasValue
                && st.set_hundred_plus is HasValue)
            &&& st.leg_average matches StatAbsolutValue::HasValue(l) ==> (st.set_average matches StatAbsolutValue::HasValue(s)
                ==> st.average_trend == CompareValue::HasValue((l - s) as i32, None))
            &&& st.leg_throws matches StatAbsolutValue::HasValue(l) ==> (st.set_throws matches StatAbsolutValue::HasValue(s)
                ==> st.throws_trend == CompareValue::HasValue((l - s) as i32, None))
            &&& st.leg_hundred_plus matches StatAbsolutValue::HasValue(l) ==> (
            st.set_hundred_plus matches StatAbsolutValue::HasValue(s) ==> st.hundred_plus_trend
                == CompareValue::HasValue((l - s) as i32, None))
        }),
{
}

/// Law: the leg figures of the panel. With at least one visit after the leg's
/// start: three darts a visit, the visits of 100 or more, and the average over
/// the visits after the start (the counts kept in 16 bits, as the panel keeps
/// them); without one, none of them is known.
pub proof fn law_leg_figures(scores: Seq<Score>, legs: Seq<Leg>, leg: Leg, metric: Option<Metric>)
    requires
        statistics_computable(scores, legs, metric, is_finished_leg(leg)),
    ensures
        ({
            let st = spec_score_statistics(scores, legs, leg, metric);
            let n = scores.len() as int;
            &&& n <= 1 ==> st.leg_throws == StatAbsolutValue::NoValue && st.leg_hundred_plus == StatAbsolutValue::NoValue
                && st.leg_average == StatAbsolutValue::NoValue
            &&& n > 1 ==> st.leg_throws == StatAbsolutValue::HasValue((3 * (n - 1)) as u16)
            &&& n > 1 ==> st.leg_hundred_plus == StatAbsolutValue::HasValue(hundred_plus_visits(scores) as u16)
            &&& n > 1 && n - 1 <= u16::MAX ==> st.leg_average == StatAbsolutValue::HasValue(
                (thrown_sum(scores, 1, n) / (n - 1)) as u16,
            )
        }),
{
    let n = scores.len() as int;
    if n > 1 && n - 1 <= u16::MAX {
        assert(((n - 1) as u16) as int == n - 1);
    }
}

/// Law: the set figures of the panel come from the metric of the set's other
/// legs and are unknown without it. Throws and 100+ visits are averaged per leg:
/// over the other legs while the current leg runs, over them and the current leg
/// once it is finished. A figure of 0 shows as unknown.
pub proof fn law_set_figures_average_over_legs(scores: Seq<Score>, legs: Seq<Leg>, leg: Leg, metric: Option<Metric>)
    ensures
        ({
            let st = spec_score_statistics(scores, legs, leg, metric);
            &&& metric is None ==> st.set_average == StatAbsolutValue::NoValue && st.set_throws
                == StatAbsolutValue::NoValue && st.set_hundred_plus == StatAbsolutValue::NoValue
                && st.average_trend == CompareValue::NoValue && st.throws_trend == CompareValue::NoValue
                && st.hundred_plus_trend == CompareValue::NoValue
            &&& metric matches Some(m) ==> (!is_finished_leg(leg) ==> (m.amount_of_legs == 0
                ==> st.set_throws == StatAbsolutValue::NoValue && st.set_hundred_plus == StatAbsolutValue::NoValue))
            &&& metric matches Some(m) ==> (!is_finished_leg(leg) && m.amount_of_legs > 0 && m.throws
                >= m.amount_of_legs ==> st.set_throws == StatAbsolutValue::HasValue(
                (m.throws / m.amount_of_legs) as u16,
            ))
            &&& metric matches Some(m) ==> (!is_finished_leg(leg) && m.amount_of_legs > 0
                && m.hundred_plus_amount >= m.amount_of_legs ==> st.set_hundred_plus
                == StatAbsolutValue::HasValue((m.hundred_plus_amount / m.amount_of_legs) as u16))
            &&& metric matches Some(m) ==> (is_finished_leg(leg) && scores.len() > 1 && m.amount_of_legs
                < u16::MAX && 3 * (scores.len() - 1) + m.throws <= u16::MAX ==> st.set_throws
                == spec_parse_stat_absolut_value(
                ((3 * (scores.len() - 1) + m.throws) / (m.amount_of_legs + 1)) as u16,
            ))
        }),
{
    let n = scores.len() as int;
    if let Some(m) = metric {
        if m.amount_of_legs > 0 && m.throws >= m.amount_of_legs {
            assert(m.throws / m.amount_of_legs >= 1) by (nonlinear_arith)
                requires m.amount_of_legs > 0, m.throws >= m.amount_of_legs;
        }
        if m.amount_of_legs > 0 && m.hundred_plus_amount >= m.amount_of_legs {
            assert(m.hundred_plus_amount / m.amount_of_legs >= 1) by (nonlinear_arith)
                requires m.amount_of_legs > 0, m.hundred_plus_amount >= m.amount_of_legs;
        }
        if n > 1 && 3 * (n - 1) + m.throws <= u16::MAX {
            assert(((3 * (n - 1)) as u16) as int == 3 * (n - 1));
        }
    }
}

/// Law: the legs won count the current leg once. When the current leg stands in
/// the list of the set's legs (whose ids are distinct), the double successes are
/// the finished legs of that list.
pub proof fn law_double_successes_count_current_leg_once(
    scores: Seq<Score>,
    legs: Seq<Leg>,
    leg: Leg,
    metric: Option<Metric>,
    k: int,
)
    requires
        distinct_leg_ids(legs),
        0 <= k < legs.len(),
        legs[k] == leg,
    ensures
        spec_score_statistics(scores, legs, leg, metric).double_successes == spec_parse_stat_absolut_value(
            finished_legs(legs) as u16,
        ),
{
    lemma_finished_split(legs, leg.id);
    lemma_finished_id_once(legs, leg.id, k);
}

/// Law: when the current leg is not in the list of the set's legs, the double
/// successes are the finished legs of the list plus the current leg if finished.
pub proof fn law_double_successes_without_current_entry(
    scores: Seq<Score>,
    legs: Seq<Leg>,
    leg: Leg,
    metric: Option<Metric>,
)
    requires
        forall|i: int| 0 <= i < legs.len() ==> #[trigger] legs[i].id != leg.id,
    ensures
        spec_score_statistics(scores, legs, leg, metric).double_successes == spec_parse_stat_absolut_value(
            (finished_legs(legs) + if is_finished_leg(leg) { 1nat } else { 0nat }) as u16,
        ),
{
    lemma_finished_split(legs, leg.id);
    lemma_finished_id_absent(legs, leg.id);
}

/// Law: the status that the list of legs gives the current leg's id does not
/// matter; the current leg's own status counts.
pub proof fn law_double_successes_use_current_status(
    scores: Seq<Score>,
    legs: Seq<Leg>,
    leg: Leg,
    metric: Option<Metric>,
    k: int,
    other: Leg,
)
    requires
        0 <= k < legs.len(),
        legs[k].id == leg.id,
        other.id == leg.id,
    ensures
        spec_score_statistics(scores, legs.update(k, other), leg, metric).double_successes == spec_score_statistics(
            scores,
            legs,
            leg,
            metric,
        ).double_successes,
{
    lemma_other_legs_ignore_current_entry(legs, leg.id, k, other);
}

/// Computes the statistics panel of a leg from its visits, the legs of its set
/// and the metric of the set's other legs.
pub fn compute_score_statistics(scores: &Vec<Score>, legs: &Vec<Leg>, leg: &Leg, metric: Option<Metric>) -> (res: ScoreStatistics)
    requires
        statistics_computable(scores@, legs@, metric, is_finished_leg(*leg)),
    ensures
        res == spec_score_statistics(scores@, legs@, *leg, metric),
{
    let leg_average = leg_live_average(scores.clone());
    let finished_text = LegStatus::Finished.display();
    let finished = leg.status == finished_text;
    let mut leg_throws = StatAbsolutValue::NoValue;
    let mut leg_hundred_plus = StatAbsolutValue::NoValue;
    let mut double_attempt_value: u16 = 0;
    if scores.len() > 1 {
        leg_throws = StatAbsolutValue::HasValue(((scores.len() - 1) * 3) as u16);
        let (hundred, attempts) = leg_counts(scores);
        leg_hundred_plus = StatAbsolutValue::HasValue(hundred as u16);
        double_attempt_value = attempts;
    }
    let mut set_average = StatAbsolutValue::NoValue;
    let mut set_throws = StatAbsolutValue::NoValue;
    let mut set_hundred_plus = StatAbsolutValue::NoValue;
    match metric {
        Some(m) => {
            double_attempt_value = double_attempt_value + m.double_attempts;
            set_average = enhance_set_average(scores.clone(), &m);
            if finished {
                set_throws = enhance_average_value(Some(&leg_throws), m.throws, m.amount_of_legs);
                set_hundred_plus = enhance_average_value(Some(&leg_hundred_plus), m.hundred_plus_amount, m.amount_of_legs);
            } else {
                set_throws = enhance_average_value(None, m.throws, m.amount_of_legs);
                set_hundred_plus = enhance_average_value(None, m.hundred_plus_amount, m.amount_of_legs);
            }
        },
        None => {},
    }
    let successes = count_double_successes(legs, leg);
    proof {
        let end: int = if scores@.len() < 4 { scores@.len() as int } else { 4 };
        if scores@.len() >= 1 {
            lemma_thrown_sum_prefix_bound(scores@, 1, end, scores@.len() as int);
        }
    }
    ScoreStatistics {
        leg_average,
        set_average,
        average_trend: calculate_compare_value(&leg_average, &set_average),
        leg_throws,
        set_throws,
        throws_trend: calculate_compare_value(&leg_throws, &set_throws),
        leg_first_nine_average: first_three_average(scores.clone()),
        leg_hundred_plus,
        set_hundred_plus,
        hundred_plus_trend: calculate_compare_value(&leg_hundred_plus, &set_hundred_plus),
        double_successes: parse_stat_absolut_value(successes as u16),
        double_attempts: parse_stat_absolut_value(double_attempt_value),
    }
}

proof fn lemma_noted_bounds(s: Seq<Score>, i: int)
    requires
        0 <= i <= s.len(),
    ensures
        noted_double_attempts(s.take(i)) <= noted_double_attempts(s),
    decreases s.len() - i,
{
    lemma_score_counts_bounds(s, i);
}

/// The sum of `thrown` over `scores[1..]`, when it fits a `u16`.
fn leg_thrown_sum_checked(scores: &Vec<Score>) -> (res: Option<u16>)
    ensures
        match res {
            Some(v) => v == thrown_sum(scores@, 1, scores@.len() as int),
            None => thrown_sum(scores@, 1, scores@.len() as int) > u16::MAX,
        },
{
    let mut sum: u32 = 0;
    let mut i: usize = 1;
    if scores.len() == 0 {
        return Some(0);
    }
    while i < scores.len()
        invariant
            1 <= i <= scores.len(),
            sum == thrown_sum(scores@, 1, i as int),
            sum <= u16::MAX,
        decreases scores.len() - i,
    {
        sum = sum + scores[i].thrown as u32;
        if sum > 65535 {
            proof {
                lemma_thrown_sum_prefix_bound(scores@, 1, i + 1, scores@.len() as int);
            }
            return None;
        }
        i = i + 1;
    }
    Some(sum as u16)
}

/// The darts at a double noted in `scores`, when they fit a `u16`.
fn noted_double_attempts_checked(scores: &Vec<Score>) -> (res: Option<u16>)
    ensures
        match res {
            Some(v) => v == noted_double_attempts(scores@),
            None => noted_double_attempts(scores@) > u16::MAX,
        },
{
    let ghost s = scores@;
    let mut sum: u32 = 0;
    let mut i: usize = 0;
    assert(s.take(0) =~= Seq::<Score>::empty());
    while i < scores.len()
        invariant
            s == scores@,
            i <= scores.len(),
            sum == noted_double_attempts(s.take(i as int)),
            sum <= u16::MAX,
        decreases scores.len() - i,
    {
        proof {
            lemma_score_counts_prefix(s, i as int);
        }
        match scores[i].double_attempt {
            Some(v) => {
                sum = sum + v as u32;
            },
            None => {},
        }
        if sum > 65535 {
            proof {
                lemma_noted_bounds(s, i + 1);
            }
            return None;
        }
        i = i + 1;
    }
    assert(s.take(s.len() as int) =~= s);
    Some(sum as u16)
}

/// Whether `compute_score_statistics` can run on these inputs without overflow.
pub fn statistics_computable_for(scores: &Vec<Score>, legs: &Vec<Leg>, leg: &Leg, metric: Option<Metric>) -> (b: bool)
    ensures
        b == statistics_computable(scores@, legs@, metric, is_finished_leg(*leg)),
{
    if legs.len() == usize::MAX {
        return false;
    }
    if scores.len() > usize::MAX / 3 {
        return false;
    }
    if scores.len() > 1 && ((scores.len() - 1) as u16) == 0 {
        return false;
    }
    let leg_sum = match leg_thrown_sum_checked(scores) {
        Some(v) => v,
        None => {
            return false;
        },
    };
    let mut leg_attempts: u16 = 0;
    if scores.len() > 1 {
        match noted_double_attempts_checked(scores) {
            Some(v) => {
                leg_attempts = v;
            },
            None => {
                return false;
            },
        }
    }
    match metric {
        None => true,
        Some(m) => {
            if leg_attempts as u32 + m.double_attempts as u32 > 65535 {
                return false;
            }
            if m.sum as u32 + leg_sum as u32 > 65535 {
                return false;
            }
            if scores.len() > 0 && m.score_amount as u32 + ((scores.len() - 1) as u16) as u32 > 65535 {
                return false;
            }
            let finished_text = LegStatus::Finished.display();
            if leg.status == finished_text {
                let mut throws: u32 = 0;
                let mut hundred: u32 = 0;
                if scores.len() > 1 {
                    throws = ((scores.len() - 1) * 3) as u16 as u32;
                    let h = leg_counts_hundred(scores);
                    hundred = h as u16 as u32;
                }
                throws + m.throws as u32 <= 65535 && hundred + m.hundred_plus_amount as u32 <= 65535
                    && m.amount_of_legs < 65535
            } else {
                true
            }
        },
    }
}

/// The number of hundred-plus visits of a leg.
fn leg_counts_hundred(scores: &Vec<Score>) -> (res: usize)
    ensures
        res == hundred_plus_visits(scores@),
{
    let ghost s = scores@;
    let mut hundred: usize = 0;
    let mut i: usize = 0;
    assert(s.take(0) =~= Seq::<Score>::empty());
    while i < scores.len()
        invariant
            s == scores@,
            i <= scores.len(),
            hundred == hundred_plus_visits(s.take(i as int)),
        decreases scores.len() - i,
    {
        proof {
            lemma_score_counts_prefix(s, i as int);
            lemma_score_counts_bounds(s, i + 1);
        }
        if scores[i].thrown >= 100 {
            hundred = hundred + 1;
        }
        i = i + 1;
    }
    assert(s.take(s.len() as int) =~= s);
    hundred
}

} // verus!
