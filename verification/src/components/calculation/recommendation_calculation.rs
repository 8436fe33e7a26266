use vstd::prelude::*;
use vstd::string::*;
use crate::decimal::{decimal, u32_to_decimal};
use ScoreType::{D, S, T};

verus! {

/// A dart aimed at a segment: treble, double or single, with the segment's number.
#[derive(Clone, Copy, Debug, PartialEq, Eq, Structural)]
pub enum ScoreType {
    T(u16),
    D(u16),
    S(u16),
}

/// A checkout advice: a main and an alternative sequence of darts.
#[derive(Clone, Debug, PartialEq, Eq)]
pub struct FinishRecValue {
    pub primary_rec: Option<Vec<ScoreType>>,
    pub secondary_rec: Option<Vec<ScoreType>>,
}

/// The advice for a score that cannot be checked out yet: what to throw and
/// what it leaves.
#[derive(Clone, Debug, PartialEq, Eq)]
pub struct NonFinishRecValue {
    pub rec: String,
    pub goal: u16,
}

#[derive(Clone, Debug, PartialEq, Eq)]
pub enum RecValue {
    IsFinish(FinishRecValue),
    NoFinish(NonFinishRecValue),
}

pub open spec fn opt_darts(o: Option<Vec<ScoreType>>) -> Option<Seq<ScoreType>> {
    match o {
        Some(v) => Some(v@),
        None => None,
    }
}

impl View for FinishRecValue {
    type V = (Option<Seq<ScoreType>>, Option<Seq<ScoreType>>);

    open spec fn view(&self) -> Self::V {
        (opt_darts(self.primary_rec), opt_darts(self.secondary_rec))
    }
}

/// What a dart scores.
pub open spec fn dart_value(d: ScoreType) -> int {
    match d {
        ScoreType::T(n) => 3 * n,
        ScoreType::D(n) => 2 * n,
        ScoreType::S(n) => n as int,
    }
}

/// A segment that exists on the board.
pub open spec fn is_legal_dart(d: ScoreType) -> bool {
    match d {
        ScoreType::T(n) => 1 <= n <= 20,
        ScoreType::D(n) => 1 <= n <= 20,
        ScoreType::S(n) => (1 <= n <= 20) || n == 25 || n == 50,
    }
}

/// What a sequence of darts scores together.
pub open spec fn rec_total(s: Seq<ScoreType>) -> int
    decreases s.len(),
{
    if s.len() == 0 {
        0
    } else {
        rec_total(s.drop_last()) + dart_value(s.last())
    }
}

/// A sequence of darts that checks out: it ends on a double or on the bull.
pub open spec fn is_checkout(s: Seq<ScoreType>, remaining: int) -> bool {
    &&& 0 < s.len() <= 3
    &&& rec_total(s) == remaining
    &&& (s.last() is D || s.last() == ScoreType::S(50))
    &&& forall|i: int| 0 <= i < s.len() ==> is_legal_dart(#[trigger] s[i])
}

/// The single and the double that check out an odd score up to 39 (and a few
/// even ones) in two darts, with an alternative where there is one.
pub open spec fn spec_under_40_two_dart_finish(r: u16) -> ((u16, u16), Option<(u16, u16)>) {
    if r == 3 {
        ((1, 1), None)
    } else if r == 39 || r == 37 || r == 35 || r == 33 {
        (((r - 32) as u16, 16), Some(((r - 20) as u16, 10)))
    } else if 4 < r < 8 {
        (((r - 4) as u16, 2), None)
    } else if 8 < r < 12 {
        (((r - 8) as u16, 4), None)
    } else if 12 < r < 16 {
        (((r - 8) as u16, 4), Some(((r - 10) as u16, 5)))
    } else {
        (((r - 16) as u16, 8), Some(((r - 10) as u16, 5)))
    }
}

/// The scores for which the two dart table has an entry.
pub open spec fn in_under_40_table(r: u16) -> bool {
    ||| r == 3
    ||| r == 39 || r == 37 || r == 35 || r == 33
    ||| 4 < r < 8
    ||| 8 < r < 12
    ||| 12 < r < 16
    ||| 16 < r < 22
    ||| 22 < r < 32
}

pub open spec fn single_double(p: (u16, u16)) -> Seq<ScoreType> {
    seq![ScoreType::S(p.0), ScoreType::D(p.1)]
}

/// The checkout advice for every score below 91.
pub open spec fn spec_finish_rec(r: u16) -> (Option<Seq<ScoreType>>, Option<Seq<ScoreType>>) {
    if r <= 1 {
        (None, None)
    } else if r <= 40 && r % 2 == 0 {
        (Some(seq![ScoreType::D((r / 2) as u16)]), None)
    } else if r <= 40 {
        let (p, s) = spec_under_40_two_dart_finish(r);
        (
            Some(single_double(p)),
            match s {
                Some(q) => Some(single_double(q)),
                None => None,
            },
        )
    } else if r <= 52 {
        (Some(single_double(((r - 32) as u16, 16))), Some(single_double(((r - 40) as u16, 20))))
    } else if r <= 60 {
        (Some(single_double(((r - 40) as u16, 20))), None)
    } else {
        spec_finish_table(r)
    }
}

/// The checkouts from 61 to 90, which follow no simple rule.
pub open spec fn spec_finish_table(r: u16) -> (Option<Seq<ScoreType>>, Option<Seq<ScoreType>>) {
    match r {
        61 => (Some(seq![ScoreType::S(25), ScoreType::D(18)]), Some(seq![ScoreType::T(15), ScoreType::D(8)])),
        62 => (Some(seq![ScoreType::T(10), ScoreType::D(16)]), Some(seq![ScoreType::T(14), ScoreType::D(10)])),
        63 => (Some(seq![ScoreType::T(13), ScoreType::D(12)]), None),
        64 => (Some(seq![ScoreType::T(16), ScoreType::D(8)]), Some(seq![ScoreType::T(8), ScoreType::D(20)])),
        65 => (Some(seq![ScoreType::S(25), ScoreType::D(20)]), Some(seq![ScoreType::T(11), ScoreType::D(16)])),
        66 => (Some(seq![ScoreType::T(10), ScoreType::D(18)]), Some(seq![ScoreType::T(18), ScoreType::D(6)])),
        67 => (Some(seq![ScoreType::T(9), ScoreType::D(20)]), None),
        68 => (Some(seq![ScoreType::T(20), ScoreType::D(4)]), Some(seq![ScoreType::T(16), ScoreType::D(10)])),
        69 => (Some(seq![ScoreType::T(11), ScoreType::D(18)]), Some(seq![ScoreType::T(15), ScoreType::D(12)])),
        70 => (Some(seq![ScoreType::T(18), ScoreType::D(8)]), Some(seq![ScoreType::T(10), ScoreType::D(20)])),
        71 => (Some(seq![ScoreType::T(13), ScoreType::D(16)]), Some(seq![ScoreType::T(17), ScoreType::D(10)])),
        72 => (Some(seq![ScoreType::T(20), ScoreType::D(6)]), Some(seq![ScoreType::T(12), ScoreType::D(18)])),
        73 => (Some(seq![ScoreType::T(19), ScoreType::D(8)]), None),
        74 => (Some(seq![ScoreType::T(14), ScoreType::D(16)]), Some(seq![ScoreType::T(16), ScoreType::D(13)])),
        75 => (Some(seq![ScoreType::T(17), ScoreType::D(12)]), Some(seq![ScoreType::S(25), ScoreType::S(50)])),
        76 => (Some(seq![ScoreType::T(16), ScoreType::D(14)]), None),
        77 => (Some(seq![ScoreType::T(19), ScoreType::D(10)]), None),
        78 => (Some(seq![ScoreType::T(18), ScoreType::D(12)]), None),
        79 => (Some(seq![ScoreType::T(19), ScoreType::D(11)]), Some(seq![ScoreType::T(13), ScoreType::D(20)])),
        80 => (Some(seq![ScoreType::T(20), ScoreType::D(10)]), Some(seq![ScoreType::D(20), ScoreType::D(20)])),
        81 => (Some(seq![ScoreType::T(19), ScoreType::D(12)]), Some(seq![ScoreType::T(15), ScoreType::D(18)])),
        82 => (Some(seq![ScoreType::T(14), ScoreType::D(20)]), Some(seq![ScoreType::S(50), ScoreType::D(16)])),
        83 => (Some(seq![ScoreType::T(17), ScoreType::D(16)]), Some(seq![ScoreType::S(50), ScoreType::S(18), ScoreType::D(20)])),
        84 => (Some(seq![ScoreType::T(20), ScoreType::D(12)]), Some(seq![ScoreType::T(16), ScoreType::D(18)])),
        85 => (Some(seq![ScoreType::T(15), ScoreType::D(20)]), Some(seq![ScoreType::T(19), ScoreType::D(14)])),
        86 => (Some(seq![ScoreType::T(18), ScoreType::D(16)]), None),
        87 => (Some(seq![ScoreType::T(17), ScoreType::D(18)]), None),
        88 => (Some(seq![ScoreType::T(20), ScoreType::D(14)]), None),
        89 => (Some(seq![ScoreType::T(19), ScoreType::D(16)]), None),
        _ => (Some(seq![ScoreType::T(20), ScoreType::D(15)]), Some(seq![ScoreType::S(50), ScoreType::D(20)])),
    }
}

fn under_40_two_dart_finish(remaining_val: u16) -> (res: ((u16, u16), Option<(u16, u16)>))
    requires
        in_under_40_table(remaining_val),
    ensures
        res == spec_under_40_two_dart_finish(remaining_val),
{
    if remaining_val == 3 {
        ((1, 1), None)
    } else if remaining_val == 39 || remaining_val == 37 || remaining_val == 35 || remaining_val == 33 {
        ((remaining_val - 32, 16), Some((remaining_val - 20, 10)))
    } else if remaining_val > 4 && remaining_val < 8 {
        ((remaining_val - 4, 2), None)
    } else if remaining_val > 8 && remaining_val < 12 {
        ((remaining_val - 8, 4), None)
    } else if remaining_val > 12 && remaining_val < 16 {
        ((remaining_val - 8, 4), Some((remaining_val - 10, 5)))
    } else if remaining_val > 16 && remaining_val < 22 {
        ((remaining_val - 16, 8), Some((remaining_val - 10, 5)))
    } else {
        ((remaining_val - 16, 8), Some((remaining_val - 10, 5)))
    }
}

fn single_double_vec(p: (u16, u16)) -> (v: Vec<ScoreType>)
    ensures
        v@ == single_double(p),
{
    vec![ScoreType::S(p.0), ScoreType::D(p.1)]
}

fn finish_table_row(r: u16) -> (res: FinishRecValue)
    requires
        61 <= r <= 90,
    ensures
        res@ == spec_finish_table(r),
{
    match r {
        61 => FinishRecValue { primary_rec: Some(vec![S(25), D(18)]), secondary_rec: Some(vec![T(15), D(8)]) },
        62 => FinishRecValue { primary_rec: Some(vec![T(10), D(16)]), secondary_rec: Some(vec![T(14), D(10)]) },
        63 => FinishRecValue { primary_rec: Some(vec![T(13), D(12)]), secondary_rec: None },
        64 => FinishRecValue { primary_rec: Some(vec![T(16), D(8)]), secondary_rec: Some(vec![T(8), D(20)]) },
        65 => FinishRecValue { primary_rec: Some(vec![S(25), D(20)]), secondary_rec: Some(vec![T(11), D(16)]) },
        66 => FinishRecValue { primary_rec: Some(vec![T(10), D(18)]), secondary_rec: Some(vec![T(18), D(6)]) },
        67 => FinishRecValue { primary_rec: Some(vec![T(9), D(20)]), secondary_rec: None },
        68 => FinishRecValue { primary_rec: Some(vec![T(20), D(4)]), secondary_rec: Some(vec![T(16), D(10)]) },
        69 => FinishRecValue { primary_rec: Some(vec![T(11), D(18)]), secondary_rec: Some(vec![T(15), D(12)]) },
        70 => FinishRecValue { primary_rec: Some(vec![T(18), D(8)]), secondary_rec: Some(vec![T(10), D(20)]) },
        71 => FinishRecValue { primary_rec: Some(vec![T(13), D(16)]), secondary_rec: Some(vec![T(17), D(10)]) },
        72 => FinishRecValue { primary_rec: Some(vec![T(20), D(6)]), secondary_rec: Some(vec![T(12), D(18)]) },
        73 => FinishRecValue { primary_rec: Some(vec![T(19), D(8)]), secondary_rec: None },
        74 => FinishRecValue { primary_rec: Some(vec![T(14), D(16)]), secondary_rec: Some(vec![T(16), D(13)]) },
        75 => FinishRecValue { primary_rec: Some(vec![T(17), D(12)]), secondary_rec: Some(vec![S(25), S(50)]) },
        76 => FinishRecValue { primary_rec: Some(vec![T(16), D(14)]), secondary_rec: None },
        77 => FinishRecValue { primary_rec: Some(vec![T(19), D(10)]), secondary_rec: None },
        78 => FinishRecValue { primary_rec: Some(vec![T(18), D(12)]), secondary_rec: None },
        79 => FinishRecValue { primary_rec: Some(vec![T(19), D(11)]), secondary_rec: Some(vec![T(13), D(20)]) },
        80 => FinishRecValue { primary_rec: Some(vec![T(20), D(10)]), secondary_rec: Some(vec![D(20), D(20)]) },
        81 => FinishRecValue { primary_rec: Some(vec![T(19), D(12)]), secondary_rec: Some(vec![T(15), D(18)]) },
        82 => FinishRecValue { primary_rec: Some(vec![T(14), D(20)]), secondary_rec: Some(vec![S(50), D(16)]) },
        83 => FinishRecValue { primary_rec: Some(vec![T(17), D(16)]), secondary_rec: Some(vec![S(50), S(18), D(20)]) },
        84 => FinishRecValue { primary_rec: Some(vec![T(20), D(12)]), secondary_rec: Some(vec![T(16), D(18)]) },
        85 => FinishRecValue { primary_rec: Some(vec![T(15), D(20)]), secondary_rec: Some(vec![T(19), D(14)]) },
        86 => FinishRecValue { primary_rec: Some(vec![T(18), D(16)]), secondary_rec: None },
        87 => FinishRecValue { primary_rec: Some(vec![T(17), D(18)]), secondary_rec: None },
        88 => FinishRecValue { primary_rec: Some(vec![T(20), D(14)]), secondary_rec: None },
        89 => FinishRecValue { primary_rec: Some(vec![T(19), D(16)]), secondary_rec: None },
        _ => FinishRecValue { primary_rec: Some(vec![T(20), D(15)]), secondary_rec: Some(vec![S(50), D(20)]) },
    }
}

fn determine_finish_rec(remaining_val: u16) -> (res: FinishRecValue)
    requires
        remaining_val < 91,
    ensures
        res@ == spec_finish_rec(remaining_val),
{
    if remaining_val <= 1 {
        FinishRecValue { primary_rec: None, secondary_rec: None }
    } else if remaining_val <= 40 && remaining_val % 2 == 0 {
        FinishRecValue { primary_rec: Some(vec![ScoreType::D(remaining_val / 2)]), secondary_rec: None }
    } else if remaining_val <= 40 {
        let (primary, secondary) = under_40_two_dart_finish(remaining_val);
        let secondary_rec = match secondary {
            Some(q) => Some(single_double_vec(q)),
            None => None,
        };
        FinishRecValue { primary_rec: Some(single_double_vec(primary)), secondary_rec }
    } else if remaining_val <= 52 {
        FinishRecValue {
            primary_rec: Some(single_double_vec((remaining_val - 32, 16))),
            secondary_rec: Some(single_double_vec((remaining_val - 40, 20))),
        }
    } else if remaining_val <= 60 {
        FinishRecValue { primary_rec: Some(single_double_vec((remaining_val - 40, 20))), secondary_rec: None }
    } else {
        finish_table_row(remaining_val)
    }
}

/// The advice shown next to a remaining score: a checkout below 91; above 180
/// three double twenties; in between the score that leaves 32 (double 16).
pub fn determine_rec(remaining_val: u16) -> (res: RecValue)
    ensures
        match res {
            RecValue::IsFinish(f) => remaining_val < 91 && f@ == spec_finish_rec(remaining_val),
            RecValue::NoFinish(n) => remaining_val >= 91 && if remaining_val > 180 {
                n.goal == remaining_val - 180 && n.rec@ == "D20 D20 D20"@
            } else {
                n.goal == 32 && n.rec@ == decimal((remaining_val - 32) as nat)
            },
        },
{
    if remaining_val < 91 {
        RecValue::IsFinish(determine_finish_rec(remaining_val))
    } else if remaining_val > 180 {
        let val = NonFinishRecValue { goal: remaining_val - 180, rec: String::from_str("D20 D20 D20") };
        RecValue::NoFinish(val)
    } else {
        let val = NonFinishRecValue { goal: 32, rec: u32_to_decimal((remaining_val - 32) as u32) };
        RecValue::NoFinish(val)
    }
}

/// Law: below 91, every score from 2 on has a main advice, and it checks the score
/// out: legal darts, at most three, summing to the score and ending on a double or
/// the bull. The alternative advice does the same, for every score but 31 (whose
/// alternative starts with a single 21) and 83 (whose alternative sums to 108).
#[verifier::rlimit(50)]
pub proof fn law_finish_recommendation_checks_out(r: u16)
    requires
        2 <= r <= 90,
    ensures
        spec_finish_rec(r).0 is Some,
        is_checkout(spec_finish_rec(r).0.unwrap(), r as int),
        r != 31 && r != 83 && spec_finish_rec(r).1 is Some ==> is_checkout(spec_finish_rec(r).1.unwrap(), r as int),
{
    reveal_with_fuel(rec_total, 4);
    if r <= 40 && r % 2 == 0 {
        assert(rec_total(seq![ScoreType::D((r / 2) as u16)]) == r);
    } else if r <= 40 {
        let (p, q) = spec_under_40_two_dart_finish(r);
        assert(rec_total(single_double(p)) == r);
        if q is Some {
            assert(rec_total(single_double(q.unwrap())) == r);
        }
    } else if r <= 52 {
        assert(rec_total(single_double(((r - 32) as u16, 16))) == r);
        assert(rec_total(single_double(((r - 40) as u16, 20))) == r);
    } else if r <= 60 {
        assert(rec_total(single_double(((r - 40) as u16, 20))) == r);
    }
}

/// How a dart is written: its letter (T, D or S) and its segment number.
pub open spec fn dart_text(d: ScoreType) -> Seq<char> {
    match d {
        ScoreType::T(n) => seq!['T'] + decimal(n as nat),
        ScoreType::D(n) => seq!['D'] + decimal(n as nat),
        ScoreType::S(n) => seq!['S'] + decimal(n as nat),
    }
}

/// The darts of an advice written one after the other, separated by a space.
pub open spec fn darts_text(s: Seq<ScoreType>) -> Seq<char>
    decreases s.len(),
{
    if s.len() == 0 {
        Seq::empty()
    } else if s.len() == 1 {
        dart_text(s[0])
    } else {
        darts_text(s.drop_last()) + seq![' '] + dart_text(s.last())
    }
}

fn dart_to_text(d: ScoreType) -> (t: String)
    ensures
        t@ == dart_text(d),
{
    proof {
        reveal_strlit("T");
        reveal_strlit("D");
        reveal_strlit("S");
    }
    let (mut t, n) = match d {
        ScoreType::T(n) => (String::from_str("T"), n),
        ScoreType::D(n) => (String::from_str("D"), n),
        ScoreType::S(n) => (String::from_str("S"), n),
    };
    let digits = u32_to_decimal(n as u32);
    t.append(digits.as_str());
    t
}

/// The text of an advice, such as "T20 D15"; nothing when there is no advice.
pub fn display_score_types(rec: &Option<Vec<ScoreType>>) -> (t: String)
    ensures
        t@ == match rec {
            Some(v) => darts_text(v@),
            None => Seq::empty(),
        },
{
    proof {
        reveal_strlit(" ");
    }
    match rec {
        None => String::new(),
        Some(darts) => {
            let mut t = String::new();
            let mut i: usize = 0;
            while i < darts.len()
                invariant
                    i <= darts.len(),
                    t@ == darts_text(darts@.take(i as int)),
                decreases darts.len() - i,
            {
                let ghost before = darts@.take(i as int);
                proof {
                    reveal_strlit(" ");
                    assert(" "@ =~= seq![' ']);
                }
                assert(darts@.take(i + 1).drop_last() =~= before);
                if i > 0 {
                    t.append(" ");
                }
                let d = dart_to_text(darts[i]);
                t.append(d.as_str());
                assert(darts@.take(i + 1).last() == darts@[i as int]);
                if i == 0 {
                    assert(before =~= Seq::<ScoreType>::empty());
                    assert(t@ =~= dart_text(darts@[0]));
                } else {
                    assert(t@ =~= darts_text(before) + seq![' '] + dart_text(darts@[i as int]));
                }
                i = i + 1;
            }
            assert(darts@.take(darts.len() as int) =~= darts@);
            t
        },
    }
}

} // verus!
