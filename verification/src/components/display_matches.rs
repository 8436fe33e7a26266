use vstd::prelude::*;
use vstd::string::*;

verus! {

/// The characters that `char::is_whitespace` accepts (Unicode `White_Space`).
pub open spec fn is_white_space(c: char) -> bool {
    let v = c as u32;
    ||| 0x09 <= v <= 0x0d
    ||| v == 0x20
    ||| v == 0x85
    ||| v == 0xa0
    ||| v == 0x1680
    ||| 0x2000 <= v <= 0x200a
    ||| v == 0x2028
    ||| v == 0x2029
    ||| v == 0x202f
    ||| v == 0x205f
    ||| v == 0x3000
}

fn char_is_white_space(c: char) -> (b: bool)
    ensures
        b == is_white_space(c),
{
    let v = c as u32;
    (0x09 <= v && v <= 0x0d) || v == 0x20 || v == 0x85 || v == 0xa0 || v == 0x1680 || (0x2000 <= v
        && v <= 0x200a) || v == 0x2028 || v == 0x2029 || v == 0x202f || v == 0x205f || v == 0x3000
}

/// `s` without its leading and trailing white space, as `str::trim` gives it:
/// `s[from..to]` where `from` and `to` are the first and last non white space
/// positions (the empty text when there is none).
pub open spec fn is_trim_of(s: Seq<char>, t: Seq<char>) -> bool {
    exists|from: int, to: int|
        0 <= from <= to <= s.len() && t == s.subrange(from, to) && (forall|i: int|
            0 <= i < from ==> is_white_space(#[trigger] s[i])) && (forall|i: int|
            to <= i < s.len() ==> is_white_space(#[trigger] s[i])) && (from < to ==> !is_white_space(
            s[from],
        ) && !is_white_space(s[to - 1]))
}

/// The title typed for a new match: trimmed, and none when nothing but white
/// space is left.
pub fn match_title_input(raw: &String) -> (title: Option<String>)
    ensures
        match title {
            None => forall|i: int| 0 <= i < raw@.len() ==> is_white_space(#[trigger] raw@[i]),
            Some(t) => t@.len() > 0 && is_trim_of(raw@, t@),
        },
{
    let text = raw.as_str();
    let len = text.unicode_len();
    let mut from: usize = 0;
    while from < len && char_is_white_space(text.get_char(from))
        invariant
            from <= len,
            len == raw@.len(),
            text@ == raw@,
            forall|i: int| 0 <= i < from ==> is_white_space(#[trigger] raw@[i]),
        decreases len - from,
    {
        from = from + 1;
    }
    if from == len {
        return None;
    }
    let mut to: usize = len;
    while to > from && char_is_white_space(text.get_char(to - 1))
        invariant
            from < len,
            from <= to <= len,
            len == raw@.len(),
            text@ == raw@,
            !is_white_space(raw@[from as int]),
            forall|i: int| to <= i < len ==> is_white_space(#[trigger] raw@[i]),
        decreases to - from,
    {
        to = to - 1;
    }
    let t = String::from_str(text.substring_char(from, to));
    assert(is_trim_of(raw@, t@)) by {
        assert(t@ == raw@.subrange(from as int, to as int));
    }
    Some(t)
}

} // verus!
