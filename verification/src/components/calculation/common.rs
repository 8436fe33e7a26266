use vstd::prelude::*;

verus! {

/// The scores below 170 that no three darts can check out.
pub open spec fn is_bogey_number(v: int) -> bool {
    v == 169 || v == 168 || v == 166 || v == 165 || v == 163 || v == 162 || v == 159
}

/// A remaining score that can be checked out: from 2 up to 169, bogey numbers aside.
pub open spec fn spec_is_finish(val: int) -> bool {
    2 <= val < 170 && !is_bogey_number(val)
}

pub(crate) fn bogey_numbers() -> (v: Vec<u16>)
    ensures
        forall|x: u16| v@.contains(x) <==> is_bogey_number(x as int),
{
    let v: Vec<u16> = vec![169, 168, 166, 165, 163, 162, 159];
    assert forall|x: u16| v@.contains(x) <==> is_bogey_number(x as int) by {
        if is_bogey_number(x as int) {
            if x == 169 { assert(v@[0] == x); }
            if x == 168 { assert(v@[1] == x); }
            if x == 166 { assert(v@[2] == x); }
            if x == 165 { assert(v@[3] == x); }
            if x == 163 { assert(v@[4] == x); }
            if x == 162 { assert(v@[5] == x); }
            if x == 159 { assert(v@[6] == x); }
        }
    }
    v
}

pub(crate) fn contains_u16(v: &Vec<u16>, x: u16) -> (b: bool)
    ensures
        b == v@.contains(x),
{
    let mut i: usize = 0;
    while i < v.len()
        invariant
            i <= v.len(),
            forall|j: int| 0 <= j < i ==> v@[j] != x,
        decreases v.len() - i,
    {
        if v[i] == x {
            return true;
        }
        i = i + 1;
    }
    false
}

/// Whether a remaining score can be checked out.
pub fn is_finish(val: u16) -> (b: bool)
    ensures
        b == spec_is_finish(val as int),
{
    let boogey_nr = bogey_numbers();
    if contains_u16(&boogey_nr, val) {
        false
    } else if 2 <= val && val < 170 {
        true
    } else {
        false
    }
}

} // verus!
