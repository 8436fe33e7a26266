use vstd::prelude::*;
use vstd::string::*;
use crate::decimal::{decimal, i32_to_signed_decimal, signed_decimal, u32_to_decimal};
use crate::domain::{Metric, Score};

verus! {

/// The difference of a leg statistic to the set statistic.
#[derive(Clone, Copy, Debug, PartialEq, Eq, Structural)]
pub enum CompareValue {
    HasValue(i32, Option<i32>),
    NoValue,
}

pub open spec fn compare_value_text(c: CompareValue) -> Seq<char> {
    match c {
        CompareValue::HasValue(set_val, None) => signed_decimal(set_val as int)
            + " compared to set average"@,
        _ => "-"@,
    }
}

impl CompareValue {
    pub fn display(&self) -> (s: String)
        ensures
            s@ == compare_value_text(*self),
    {
        match self {
            CompareValue::HasValue(set_val, None) => {
                let mut s = i32_to_signed_decimal(*set_val);
                s.append(" compared to set average");
                s
            },
            _ => String::from_str("-"),
        }
    }
}

/// A statistic that is known (and then not zero) or not.
#[derive(Clone, Copy, Debug, PartialEq, Eq, Structural)]
pub enum StatAbsolutValue {
    HasValue(u16),
    NoValue,
}

/// The leg value minus the set value, when both are known.
pub open spec fn spec_calculate_compare_value(leg: StatAbsolutValue, set: StatAbsolutValue) -> CompareValue {
    match (leg, set) {
        (StatAbsolutValue::HasValue(l), StatAbsolutValue::HasValue(s)) => CompareValue::HasValue(
            (l - s) as i32,
            None,
        ),
        _ => CompareValue::NoValue,
    }
}

pub fn calculate_compare_value(leg_stat_value: &StatAbsolutValue, set_stat_value: &StatAbsolutValue) -> (res: CompareValue)
    ensures
        res == spec_calculate_compare_value(*leg_stat_value, *set_stat_value),
{
    match (leg_stat_value, set_stat_value) {
        (StatAbsolutValue::HasValue(leg_value), StatAbsolutValue::HasValue(set_value)) => {
            CompareValue::HasValue(*leg_value as i32 - *set_value as i32, None)
        },
        _ => CompareValue::NoValue,
    }
}

/// Law: comparing the other way round gives the negated difference, and a
/// comparison is known exactly when both values are.
pub proof fn law_compare_value_antisymmetric(a: StatAbsolutValue, b: StatAbsolutValue)
    ensures
        (spec_calculate_compare_value(a, b) is HasValue) == (a is HasValue && b is HasValue),
        spec_calculate_compare_value(a, b) matches CompareValue::HasValue(d, None) ==> spec_calculate_compare_value(
            b,
            a,
        ) == CompareValue::HasValue(-d as i32, None),
{
}

pub open spec fn stat_text(v: StatAbsolutValue) -> Seq<char> {
    match v {
        StatAbsolutValue::HasValue(val) => decimal(val as nat),
        StatAbsolutValue::NoValue => "-"@,
    }
}

pub open spec fn spec_value_or_zero(v: StatAbsolutValue) -> u16 {
    match v {
        StatAbsolutValue::HasValue(val) => val,
        StatAbsolutValue::NoValue => 0,
    }
}

impl StatAbsolutValue {
    pub fn display(&self) -> (s: String)
        ensures
            s@ == stat_text(*self),
    {
        match self {
            StatAbsolutValue::HasValue(val) => u32_to_decimal(*val as u32),
            StatAbsolutValue::NoValue => String::from_str("-"),
        }
    }

    pub fn value_or_zero(&self) -> (v: u16)
        ensures
            v == spec_value_or_zero(*self),
    {
        match self {
            StatAbsolutValue::HasValue(val) => *val,
            StatAbsolutValue::NoValue => 0,
        }
    }
}

pub open spec fn spec_parse_stat_absolut_value(val_input: u16) -> StatAbsolutValue {
    if val_input == 0 {
        StatAbsolutValue::NoValue
    } else {
        StatAbsolutValue::HasValue(val_input)
    }
}

/// Zero stands for "no value".
pub fn parse_stat_absolut_value(val_input: u16) -> (res: StatAbsolutValue)
    ensures
        res == spec_parse_stat_absolut_value(val_input),
{
    match val_input {
        0 => StatAbsolutValue::NoValue,
        _ => StatAbsolutValue::HasValue(val_input),
    }
}

/// Law: a parsed value reads back as the number it came from.
pub proof fn law_parse_stat_value_or_zero(val_input: u16)
    ensures
        spec_value_or_zero(spec_parse_stat_absolut_value(val_input)) == val_input,
{
}

/// The sum of what was thrown in the scores `s[from..to]`.
pub open spec fn thrown_sum(s: Seq<Score>, from: int, to: int) -> int
    decreases to - from,
{
    if to <= from {
        0
    } else {
        thrown_sum(s, from, to - 1) + s[to - 1].thrown
    }
}

proof fn lemma_thrown_sum_monotone(s: Seq<Score>, from: int, mid: int, to: int)
    requires
        from <= mid <= to,
    ensures
        thrown_sum(s, from, mid) <= thrown_sum(s, from, to),
    decreases to - mid,
{
    if mid < to {
        lemma_thrown_sum_monotone(s, from, mid, to - 1);
    }
}

/// Sums `thrown` over `scores[from..to]`.
fn sum_thrown(scores: &Vec<Score>, from: usize, to: usize) -> (sum: u16)
    requires
        from <= to <= scores.len(),
        thrown_sum(scores@, from as int, to as int) <= u16::MAX,
    ensures
        sum == thrown_sum(scores@, from as int, to as int),
{
    let mut sum: u16 = 0;
    let mut i = from;
    while i < to
        invariant
            from <= i <= to <= scores.len(),
            thrown_sum(scores@, from as int, to as int) <= u16::MAX,
            sum == thrown_sum(scores@, from as int, i as int),
        decreases to - i,
    {
        proof {
            lemma_thrown_sum_monotone(scores@, from as int, i + 1, to as int);
        }
        sum = sum + scores[i].thrown;
        i = i + 1;
    }
    sum
}

/// The average of a leg so far: the first score (the leg's start) is left out.
pub open spec fn spec_leg_live_average(scores: Seq<Score>) -> StatAbsolutValue {
    if scores.len() <= 1 {
        StatAbsolutValue::NoValue
    } else {
        StatAbsolutValue::HasValue(
            (thrown_sum(scores, 1, scores.len() as int) / (((scores.len() - 1) as u16) as int)) as u16,
        )
    }
}

pub fn leg_live_average(scores: Vec<Score>) -> (res: StatAbsolutValue)
    requires
        thrown_sum(scores@, 1, scores@.len() as int) <= u16::MAX,
        scores@.len() > 1 ==> ((scores@.len() - 1) as u16) != 0,
    ensures
        res == spec_leg_live_average(scores@),
{
    if scores.len() == 0 {
        StatAbsolutValue::NoValue
    } else {
        let sum = sum_thrown(&scores, 1, scores.len());
        let tail_len = scores.len() - 1;
        if tail_len > 0 {
            StatAbsolutValue::HasValue(sum / (tail_len as u16))
        } else {
            StatAbsolutValue::NoValue
        }
    }
}

/// The set average with the current leg's scores (its first aside) added.
pub open spec fn spec_enhance_set_average(scores: Seq<Score>, set_metric: Metric) -> StatAbsolutValue {
    let leg_sum = if scores.len() > 0 { thrown_sum(scores, 1, scores.len() as int) } else { 0 };
    let leg_score_amount = if scores.len() > 0 { ((scores.len() - 1) as u16) as int } else { 0 };
    let common_score_amount = set_metric.score_amount + leg_score_amount;
    if common_score_amount == 0 {
        StatAbsolutValue::NoValue
    } else {
        StatAbsolutValue::HasValue(((set_metric.sum + leg_sum) / common_score_amount) as u16)
    }
}

pub fn enhance_set_average(scores: Vec<Score>, set_metric: &Metric) -> (res: StatAbsolutValue)
    requires
        set_metric.sum + thrown_sum(scores@, 1, scores@.len() as int) <= u16::MAX,
        scores@.len() > 0 ==> set_metric.score_amount + ((scores@.len() - 1) as u16) <= u16::MAX,
    ensures
        res == spec_enhance_set_average(scores@, *set_metric),
{
    let set_sum = set_metric.sum;
    let set_score_amount = set_metric.score_amount;
    let mut leg_sum: u16 = 0;
    let mut leg_score_amount: u16 = 0;
    if scores.len() > 0 {
        leg_sum = sum_thrown(&scores, 1, scores.len());
        leg_score_amount = (scores.len() - 1) as u16;
    }
    let common_score_amount = set_score_amount + leg_score_amount;
    if common_score_amount == 0 {
        StatAbsolutValue::NoValue
    } else {
        StatAbsolutValue::HasValue((set_sum + leg_sum) / common_score_amount)
    }
}

/// Law: with no other legs (an empty set metric) the set average is the leg average.
pub proof fn law_set_average_without_other_legs(scores: Seq<Score>, set_metric: Metric)
    requires
        set_metric.sum == 0,
        set_metric.score_amount == 0,
        scores.len() > 1 ==> ((scores.len() - 1) as u16) != 0,
    ensures
        spec_enhance_set_average(scores, set_metric) == spec_leg_live_average(scores),
{
}

pub open spec fn spec_enhance_average_value(
    enhancing_stat: Option<StatAbsolutValue>,
    target: u16,
    divider: u16,
) -> StatAbsolutValue {
    match enhancing_stat {
        None => if divider == 0 {
            StatAbsolutValue::NoValue
        } else {
            spec_parse_stat_absolut_value((target / divider) as u16)
        },
        Some(e) => spec_parse_stat_absolut_value(
            ((spec_value_or_zero(e) + target) / (divider + 1)) as u16,
        ),
    }
}

/// A per-leg average over `divider` legs that add up to `target`; with a value
/// for the current leg, that leg is counted in as one more.
pub fn enhance_average_value(enhancing_stat: Option<&StatAbsolutValue>, target: u16, divider: u16) -> (res: StatAbsolutValue)
    requires
        enhancing_stat matches Some(e) ==> spec_value_or_zero(*e) + target <= u16::MAX && divider
            < u16::MAX,
    ensures
        res == spec_enhance_average_value(
            match enhancing_stat {
                Some(e) => Some(*e),
                None => None,
            },
            target,
            divider,
        ),
{
    match enhancing_stat {
        None => match divider {
            0 => StatAbsolutValue::NoValue,
            _ => parse_stat_absolut_value(target / divider),
        },
        Some(enhancing_value) => parse_stat_absolut_value(
            (enhancing_value.value_or_zero() + target) / (divider + 1),
        ),
    }
}

/// The average of the first three visits of a leg (the first nine darts), its
/// first score aside.
pub open spec fn spec_first_three_average(scores: Seq<Score>) -> StatAbsolutValue {
    if scores.len() <= 1 {
        StatAbsolutValue::NoValue
    } else {
        let n = if scores.len() - 1 < 3 { scores.len() - 1 } else { 3 };
        StatAbsolutValue::HasValue((thrown_sum(scores, 1, 1 + n) / n) as u16)
    }
}

pub fn first_three_average(scores: Vec<Score>) -> (res: StatAbsolutValue)
    requires
        thrown_sum(scores@, 1, if scores@.len() < 4 { scores@.len() as int } else { 4 }) <= u16::MAX,
    ensures
        res == spec_first_three_average(scores@),
{
    if scores.len() < 1 {
        StatAbsolutValue::NoValue
    } else {
        let tail_len = scores.len() - 1;
        let split_val: usize = if 3 < tail_len { 3 } else { tail_len };
        let sum = sum_thrown(&scores, 1, 1 + split_val);
        if split_val > 0 {
            StatAbsolutValue::HasValue(sum / split_val as u16)
        } else {
            StatAbsolutValue::NoValue
        }
    }
}

/// Law: on a leg of at most three visits (besides its start), the first-nine average
/// and the leg average agree.
pub proof fn law_first_three_is_live_average_on_short_legs(scores: Seq<Score>)
    requires
        scores.len() <= 4,
    ensures
        spec_first_three_average(scores) == spec_leg_live_average(scores),
{
}

/// Law: the first-nine average is the average of the first three visits after
/// the leg's start (of all of them on a shorter leg); without a visit it is unknown.
pub proof fn law_first_nine_is_first_three_visits(scores: Seq<Score>)
    ensures
        scores.len() <= 1 ==> spec_first_three_average(scores) == StatAbsolutValue::NoValue,
        scores.len() == 2 ==> spec_first_three_average(scores) == StatAbsolutValue::HasValue(scores[1].thrown),
        scores.len() == 3 ==> spec_first_three_average(scores) == StatAbsolutValue::HasValue(
            ((scores[1].thrown + scores[2].thrown) / 2) as u16,
        ),
        scores.len() >= 4 ==> spec_first_three_average(scores) == StatAbsolutValue::HasValue(
            ((scores[1].thrown + scores[2].thrown + scores[3].thrown) / 3) as u16,
        ),
{
    assert(thrown_sum(scores, 1, 1) == 0);
    if scores.len() >= 2 {
        assert(thrown_sum(scores, 1, 2) == scores[1].thrown);
    }
    if scores.len() >= 3 {
        assert(thrown_sum(scores, 1, 3) == scores[1].thrown + scores[2].thrown);
    }
    if scores.len() >= 4 {
        assert(thrown_sum(scores, 1, 4) == scores[1].thrown + scores[2].thrown + scores[3].thrown);
    }
}

/// Law: once a leg has three visits after its start, later visits do not change
/// its first-nine average.
pub proof fn law_first_nine_ignores_later_visits(scores: Seq<Score>, later: Seq<Score>)
    requires
        scores.len() >= 4,
    ensures
        spec_first_three_average(scores + later) == spec_first_three_average(scores),
{
    law_first_nine_is_first_three_visits(scores);
    law_first_nine_is_first_three_visits(scores + later);
    assert((scores + later)[1] == scores[1]);
    assert((scores + later)[2] == scores[2]);
    assert((scores + later)[3] == scores[3]);
}

} // verus!
