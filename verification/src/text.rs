//! Text: its characters, blank text and decimal digits.

use vstd::prelude::*;

verus! {

/// Whether `c` is white space, after the Unicode property of that name.
pub open spec fn white_space(c: char) -> bool {
    ||| '\u{9}' <= c <= '\u{d}'
    ||| c == '\u{20}'
    ||| c == '\u{85}'
    ||| c == '\u{a0}'
    ||| c == '\u{1680}'
    ||| '\u{2000}' <= c <= '\u{200a}'
    ||| c == '\u{2028}'
    ||| c == '\u{2029}'
    ||| c == '\u{202f}'
    ||| c == '\u{205f}'
    ||| c == '\u{3000}'
}

/// `char::is_whitespace`: whether a character has the Unicode property
/// `White_Space`.
pub assume_specification[ char::is_whitespace ](c: char) -> (r: bool)
    ensures
        r == white_space(c),
;

/// Whether a text is empty or made of white space alone.
pub open spec fn blank(s: Seq<char>) -> bool {
    forall|i: int| 0 <= i < s.len() ==> white_space(#[trigger] s[i])
}

/// Whether a text is empty or made of white space alone.
pub fn is_blank(s: &str) -> (r: bool)
    ensures
        r == blank(s@),
{
    let chars: Vec<char> = chars_of(s);
    let mut i: usize = 0;
    while i < chars.len()
        invariant
            chars@ == s@,
            i <= chars.len(),
            forall|j: int| 0 <= j < i ==> white_space(#[trigger] s@[j]),
        decreases chars.len() - i,
    {
        if !chars[i].is_whitespace() {
            return false;
        }
        i = i + 1;
    }
    true
}

/// The characters of a text.
pub fn chars_of(s: &str) -> (r: Vec<char>)
    ensures
        r@ == s@,
{
    let mut r: Vec<char> = Vec::new();
    for c in iter: s.chars()
        invariant
            r@ == iter.seq().take(iter.index() as int),
            iter.seq() == s@,
    {
        r.push(c);
    }
    assert(r@ =~= s@);
    r
}

/// What a text holds.
pub open spec fn text_of(s: Option<String>) -> Option<Seq<char>> {
    match s {
        Some(t) => Some(t@),
        None => None,
    }
}

/// A text, or nothing where it is blank.
pub open spec fn unless_blank(s: Option<Seq<char>>) -> Option<Seq<char>> {
    match s {
        Some(t) => if blank(t) {
            None
        } else {
            Some(t)
        },
        None => None,
    }
}

/// A text, or nothing where it is blank.
pub fn non_blank(s: Option<String>) -> (r: Option<String>)
    ensures
        text_of(r) == unless_blank(text_of(s)),
{
    match s {
        Some(t) => if is_blank(t.as_str()) {
            None
        } else {
            Some(t)
        },
        None => None,
    }
}

/// Whether `c` is a decimal digit.
pub open spec fn digit(c: char) -> bool {
    '0' <= c <= '9'
}

/// The number that a decimal digit stands for.
pub open spec fn digit_value(c: char) -> int {
    c as int - '0' as int
}

/// The number that a decimal digit stands for; nothing for any other character.
pub fn digit_of(c: char) -> (r: Option<u8>)
    ensures
        match r {
            Some(v) => digit(c) && v == digit_value(c) && v < 10,
            None => !digit(c),
        },
{
    if '0' <= c && c <= '9' {
        Some((c as u32 - '0' as u32) as u8)
    } else {
        None
    }
}

/// Text with any character that is not white space is kept as it is, whatever its
/// length; text without one is cleared.
pub proof fn text_is_kept_or_cleared(s: Seq<char>)
    ensures
        forall|i: int| 0 <= i < s.len() && !white_space(#[trigger] s[i]) ==> unless_blank(Some(s)) == Some(s),
        (forall|i: int| 0 <= i < s.len() ==> white_space(#[trigger] s[i])) ==> unless_blank(Some(s)) is None,
        unless_blank(None) is None,
{
}

/// To leave out blank text once more changes nothing.
pub proof fn clearing_is_done_once(s: Option<Seq<char>>)
    ensures
        unless_blank(unless_blank(s)) == unless_blank(s),
        unless_blank(s) is Some ==> unless_blank(s) == s,
{
}

/// What is said of a text is said of all its characters.
pub proof fn text_has_its_characters(t: String)
    ensures
        text_of(Some(t)) == Some(t@),
        text_of(None) is None,
{
}

/// The ten digits stand for the numbers from zero to nine, in order.
pub proof fn digits_in_order(c: char)
    ensures
        digit(c) <==> 0 <= digit_value(c) <= 9,
        digit_value('0') == 0,
        digit_value('9') == 9,
        digit(c) && c != '9' ==> digit_value((c as u32 + 1) as char) == digit_value(c) + 1,
{
}

} // verus!
