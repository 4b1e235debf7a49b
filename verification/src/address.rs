//! The literal IPv4 addresses and ports of the tunnel's endpoint.

use vstd::prelude::*;

use crate::text::{digit, digit_value};

verus! {

/// Why a text is no port.
#[derive(Clone, Copy, Debug, PartialEq, Eq, Structural)]
pub enum PortError {
    /// It is empty.
    Empty,
    /// It has a character that is no digit, or nothing behind its sign.
    InvalidDigit,
    /// The number is over 65535.
    TooLarge,
}

/// The port that decimal digits give, read from the left; the first character
/// that cannot be taken decides why there is none.
pub open spec fn digits_port(s: Seq<char>) -> Result<int, PortError>
    decreases s.len(),
{
    if s.len() == 0 {
        Ok(0)
    } else {
        match digits_port(s.drop_last()) {
            Err(e) => Err(e),
            Ok(v) => if !digit(s.last()) {
                Err(PortError::InvalidDigit)
            } else if v * 10 + digit_value(s.last()) > 65535 {
                Err(PortError::TooLarge)
            } else {
                Ok(v * 10 + digit_value(s.last()))
            },
        }
    }
}

/// The port in a text: decimal digits, with a plus sign in front or not.
pub open spec fn port_of(s: Seq<char>) -> Result<int, PortError> {
    if s.len() == 0 {
        Err(PortError::Empty)
    } else if s.len() == 1 && s[0] == '+' {
        Err(PortError::InvalidDigit)
    } else if s[0] == '+' {
        digits_port(s.drop_first())
    } else {
        digits_port(s)
    }
}

/// The port in the characters of `s` from `from` on.
pub fn parse_port(s: &[char], from: usize) -> (r: Result<u16, PortError>)
    requires
        from <= s@.len(),
    ensures
        match r {
            Ok(v) => port_of(s@.skip(from as int)) == Ok::<int, PortError>(v as int),
            Err(e) => port_of(s@.skip(from as int)) == Err::<int, PortError>(e),
        },
{
    let ghost text = s@.skip(from as int);
    if from == s.len() {
        return Err(PortError::Empty);
    }
    let mut i: usize = from;
    if s[from] == '+' {
        if s.len() - from == 1 {
            return Err(PortError::InvalidDigit);
        }
        i = from + 1;
    }
    let start: usize = i;
    let ghost digits = s@.skip(start as int);
    assert(start == from + 1 ==> digits =~= text.drop_first());
    let mut v: u16 = 0;
    assert(digits.take(0) =~= Seq::<char>::empty());
    while i < s.len()
        invariant
            start <= i <= s@.len(),
            s@.len() == s.len(),
            digits == s@.skip(start as int),
            digits_port(digits.take(i - start)) == Ok::<int, PortError>(v as int),
            text == s@.skip(from as int),
            port_of(text) == digits_port(digits),
        decreases s.len() - i,
    {
        let ghost next = digits.take(i - start + 1);
        assert(next.drop_last() =~= digits.take(i - start));
        assert(next.last() == s@[i as int]);
        match crate::text::digit_of(s[i]) {
            None => {
                proof {
                    lemma_first_fault(digits, i - start + 1);
                }
                return Err(PortError::InvalidDigit);
            },
            Some(d) => {
                let wide: u32 = v as u32 * 10 + d as u32;
                if wide > 65535 {
                    proof {
                        lemma_first_fault(digits, i - start + 1);
                    }
                    return Err(PortError::TooLarge);
                }
                v = wide as u16;
            },
        }
        i = i + 1;
    }
    assert(digits.take(i - start) =~= digits);
    Ok(v)
}

proof fn lemma_first_fault(s: Seq<char>, n: int)
    requires
        0 <= n <= s.len(),
        digits_port(s.take(n)) is Err,
    ensures
        digits_port(s) == digits_port(s.take(n)),
    decreases s.len(),
{
    if n == s.len() {
        assert(s.take(n) =~= s);
    } else {
        assert(s.drop_last().take(n) =~= s.take(n));
        lemma_first_fault(s.drop_last(), n);
    }
}

/// The number that decimal digits denote.
pub open spec fn decimal(s: Seq<char>) -> int
    decreases s.len(),
{
    if s.len() == 0 {
        0
    } else {
        decimal(s.drop_last()) * 10 + digit_value(s.last())
    }
}

/// Decimal digits are a port exactly when the number that they denote is at most
/// 65535, and then it is that number.
pub proof fn port_is_decimal(s: Seq<char>)
    requires
        forall|i: int| 0 <= i < s.len() ==> digit(#[trigger] s[i]),
    ensures
        decimal(s) >= 0,
        digits_port(s) == if decimal(s) <= 65535 {
            Ok::<int, PortError>(decimal(s))
        } else {
            Err(PortError::TooLarge)
        },
    decreases s.len(),
{
    if s.len() > 0 {
        assert(forall|i: int| 0 <= i < s.len() - 1 ==> s.drop_last()[i] == s[i]);
        port_is_decimal(s.drop_last());
        assert(digit(s.last()));
    }
}

/// Where the run of digits that begins at `at` ends.
pub open spec fn digits_end(s: Seq<char>, at: int) -> int
    decreases s.len() - at,
{
    if 0 <= at < s.len() && digit(s[at]) {
        digits_end(s, at + 1)
    } else {
        at
    }
}

/// The part of an address that begins at `at`, and where it ends: the decimal
/// digits of a number up to 255, without zeros in front.
pub open spec fn octet_at(s: Seq<char>, at: int) -> Option<(u8, int)> {
    let end = digits_end(s, at);
    let v = decimal(s.subrange(at, end));
    if 1 <= end - at <= 3 && (s[at] != '0' || end - at == 1) && v <= 255 {
        Some((v as u8, end))
    } else {
        None
    }
}

/// Whether a dot stands at `at`.
pub open spec fn dot_at(s: Seq<char>, at: int) -> bool {
    at < s.len() && s[at] == '.'
}

/// The address in a text: four numbers with dots between them.
pub open spec fn ipv4_of(s: Seq<char>) -> Option<Seq<u8>> {
    match octet_at(s, 0) {
        Some((a, i)) if dot_at(s, i) => match octet_at(s, i + 1) {
            Some((b, j)) if dot_at(s, j) => match octet_at(s, j + 1) {
                Some((c, k)) if dot_at(s, k) => match octet_at(s, k + 1) {
                    Some((d, end)) if end == s.len() => Some(seq![a, b, c, d]),
                    _ => None,
                },
                _ => None,
            },
            _ => None,
        },
        _ => None,
    }
}

proof fn lemma_digits_end(s: Seq<char>, at: int)
    requires
        0 <= at <= s.len(),
    ensures
        at <= digits_end(s, at) <= s.len(),
        forall|i: int| at <= i < digits_end(s, at) ==> digit(#[trigger] s[i]),
        digits_end(s, at) < s.len() ==> !digit(s[digits_end(s, at)]),
    decreases s.len() - at,
{
    if at < s.len() && digit(s[at]) {
        lemma_digits_end(s, at + 1);
    }
}

proof fn lemma_digits_end_is(s: Seq<char>, at: int, end: int)
    requires
        0 <= at <= end <= s.len(),
        forall|i: int| at <= i < end ==> digit(#[trigger] s[i]),
        end < s.len() ==> !digit(s[end]),
    ensures
        digits_end(s, at) == end,
    decreases end - at,
{
    if at < end {
        assert(digit(s[at]));
        lemma_digits_end_is(s, at + 1, end);
    }
}

/// The part of an address that begins at `at` in `s`, and where it ends.
fn parse_octet(s: &[char], at: usize) -> (r: Option<(u8, usize)>)
    requires
        at <= s@.len(),
    ensures
        match r {
            Some((v, end)) => octet_at(s@, at as int) == Some((v, end as int)) && end <= s@.len(),
            None => octet_at(s@, at as int) is None,
        },
{
    let mut i: usize = at;
    let mut v: u32 = 0;
    proof {
        lemma_digits_end(s@, at as int);
    }
    assert(s@.subrange(at as int, at as int) =~= Seq::<char>::empty());
    while i < s.len() && i - at < 4
        invariant_except_break
            i <= digits_end(s@, at as int),
        invariant
            at <= i <= s@.len(),
            i - at <= 4,
            s@.len() == s.len(),
            v == decimal(s@.subrange(at as int, i as int)),
            i - at == 0 ==> v == 0,
            i - at == 1 ==> v < 10,
            i - at == 2 ==> v < 100,
            i - at == 3 ==> v < 1000,
            i - at == 4 ==> v < 10000,
            at <= digits_end(s@, at as int) <= s@.len(),
            forall|j: int| at <= j < digits_end(s@, at as int) ==> digit(#[trigger] s@[j]),
            digits_end(s@, at as int) < s@.len() ==> !digit(s@[digits_end(s@, at as int)]),
        ensures
            i == digits_end(s@, at as int) || (i - at == 4 && digits_end(s@, at as int) - at >= 4),
        decreases s.len() - i,
    {
        match crate::text::digit_of(s[i]) {
            None => {
                break;
            },
            Some(d) => {
                let ghost part = s@.subrange(at as int, i + 1);
                assert(part.drop_last() =~= s@.subrange(at as int, i as int));
                assert(part.last() == s@[i as int]);
                v = v * 10 + d as u32;
                i = i + 1;
            },
        }
    }
    let count: usize = i - at;
    if count == 0 || count > 3 || v > 255 || (s[at] == '0' && count > 1) {
        None
    } else {
        Some((v as u8, i))
    }
}

/// Whether a dot stands at `at` in `s`.
fn has_dot(s: &[char], at: usize) -> (r: bool)
    ensures
        r == dot_at(s@, at as int),
{
    at < s.len() && s[at] == '.'
}

/// The address in a text.
pub fn parse_ipv4(s: &[char]) -> (r: Option<[u8; 4]>)
    ensures
        match r {
            Some(ip) => ipv4_of(s@) == Some(ip@),
            None => ipv4_of(s@) is None,
        },
{
    let (a, i) = match parse_octet(s, 0) {
        Some(v) => v,
        None => return None,
    };
    if !has_dot(s, i) {
        return None;
    }
    let (b, j) = match parse_octet(s, i + 1) {
        Some(v) => v,
        None => return None,
    };
    if !has_dot(s, j) {
        return None;
    }
    let (c, k) = match parse_octet(s, j + 1) {
        Some(v) => v,
        None => return None,
    };
    if !has_dot(s, k) {
        return None;
    }
    let (d, end) = match parse_octet(s, k + 1) {
        Some(v) => v,
        None => return None,
    };
    if end != s.len() {
        return None;
    }
    let ip: [u8; 4] = [a, b, c, d];
    assert(ip@ =~= seq![a, b, c, d]);
    Some(ip)
}

/// The character of a decimal digit.
pub open spec fn digit_char(v: int) -> char {
    (v + '0' as int) as char
}

/// The decimal digits of a number up to 255, without zeros in front.
pub open spec fn octet_text(v: u8) -> Seq<char> {
    if v < 10 {
        seq![digit_char(v as int)]
    } else if v < 100 {
        seq![digit_char(v as int / 10), digit_char(v as int % 10)]
    } else {
        seq![digit_char(v as int / 100), digit_char(v as int / 10 % 10), digit_char(v as int % 10)]
    }
}

/// An address in dotted decimal form.
pub open spec fn ipv4_text(ip: Seq<u8>) -> Seq<char> {
    octet_text(ip[0]) + seq!['.'] + octet_text(ip[1]) + seq!['.'] + octet_text(ip[2]) + seq!['.'] + octet_text(
        ip[3],
    )
}

proof fn lemma_octet_text(v: u8)
    ensures
        1 <= octet_text(v).len() <= 3,
        octet_text(v)[0] != '0' || octet_text(v).len() == 1,
        decimal(octet_text(v)) == v,
        forall|i: int| 0 <= i < octet_text(v).len() ==> digit(#[trigger] octet_text(v)[i]),
{
    let t = octet_text(v);
    reveal_with_fuel(decimal, 4);
    if v < 10 {
        assert(t.drop_last() =~= Seq::<char>::empty());
    } else if v < 100 {
        assert(t.drop_last() =~= seq![digit_char(v as int / 10)]);
        assert(t.drop_last().drop_last() =~= Seq::<char>::empty());
    } else {
        assert(t.drop_last() =~= seq![digit_char(v as int / 100), digit_char(v as int / 10 % 10)]);
        assert(t.drop_last().drop_last() =~= seq![digit_char(v as int / 100)]);
        assert(t.drop_last().drop_last().drop_last() =~= Seq::<char>::empty());
    }
}

proof fn lemma_octet_text_is(t: Seq<char>)
    requires
        1 <= t.len() <= 3,
        t[0] != '0' || t.len() == 1,
        0 <= decimal(t) <= 255,
        forall|i: int| 0 <= i < t.len() ==> digit(#[trigger] t[i]),
    ensures
        t == octet_text(decimal(t) as u8),
{
    reveal_with_fuel(decimal, 4);
    assert(digit(t[0]));
    if t.len() == 1 {
        assert(t.drop_last() =~= Seq::<char>::empty());
        assert(decimal(t) == digit_value(t[0]));
    } else if t.len() == 2 {
        assert(digit(t[1]));
        assert(t.drop_last() =~= seq![t[0]]);
        assert(t.drop_last().drop_last() =~= Seq::<char>::empty());
        assert(decimal(t) == digit_value(t[0]) * 10 + digit_value(t[1]));
    } else {
        assert(digit(t[1]));
        assert(digit(t[2]));
        assert(t.drop_last() =~= seq![t[0], t[1]]);
        assert(t.drop_last().drop_last() =~= seq![t[0]]);
        assert(t.drop_last().drop_last().drop_last() =~= Seq::<char>::empty());
        assert(decimal(t) == digit_value(t[0]) * 100 + digit_value(t[1]) * 10 + digit_value(t[2]));
    }
    assert(t =~= octet_text(decimal(t) as u8));
}

proof fn lemma_octet_back(s: Seq<char>, at: int, v: u8)
    requires
        0 <= at,
        at + octet_text(v).len() <= s.len(),
        s.subrange(at, at + octet_text(v).len()) == octet_text(v),
        at + octet_text(v).len() < s.len() ==> s[at + octet_text(v).len()] == '.',
    ensures
        octet_at(s, at) == Some((v, at + octet_text(v).len())),
{
    let t = octet_text(v);
    let end = at + t.len();
    lemma_octet_text(v);
    assert forall|i: int| at <= i < end implies digit(#[trigger] s[i]) by {
        assert(s[i] == s.subrange(at, end)[i - at]);
    }
    lemma_digits_end_is(s, at, end);
    assert(s[at] == t[0]);
}

/// An address in dotted decimal form is read back.
pub proof fn ipv4_reads_back(ip: Seq<u8>)
    requires
        ip.len() == 4,
    ensures
        ipv4_of(ipv4_text(ip)) == Some(ip),
{
    let s = ipv4_text(ip);
    let (a, b, c, d) = (octet_text(ip[0]), octet_text(ip[1]), octet_text(ip[2]), octet_text(ip[3]));
    lemma_octet_text(ip[0]);
    lemma_octet_text(ip[1]);
    lemma_octet_text(ip[2]);
    lemma_octet_text(ip[3]);
    let i = a.len() as int;
    let j = i + 1 + b.len();
    let k = j + 1 + c.len();
    assert(s.subrange(0, i) =~= a);
    lemma_octet_back(s, 0, ip[0]);
    assert(s.subrange(i + 1, j) =~= b);
    lemma_octet_back(s, i + 1, ip[1]);
    assert(s.subrange(j + 1, k) =~= c);
    lemma_octet_back(s, j + 1, ip[2]);
    assert(s.subrange(k + 1, k + 1 + d.len()) =~= d);
    lemma_octet_back(s, k + 1, ip[3]);
    assert(seq![ip[0], ip[1], ip[2], ip[3]] =~= ip);
}

proof fn lemma_octet_at(s: Seq<char>, at: int)
    requires
        0 <= at <= s.len(),
        octet_at(s, at) is Some,
    ensures
        ({
            let (v, end) = octet_at(s, at)->0;
            &&& at < end <= s.len()
            &&& s.subrange(at, end) == octet_text(v)
        }),
{
    lemma_digits_end(s, at);
    let end = digits_end(s, at);
    let t = s.subrange(at, end);
    assert forall|i: int| 0 <= i < t.len() implies digit(#[trigger] t[i]) by {
        assert(digit(s[at + i]));
    }
    port_is_decimal(t);
    lemma_octet_text_is(t);
}

/// No text but the dotted decimal form of an address is read as that address.
pub proof fn ipv4_text_is_unique(s: Seq<char>, ip: Seq<u8>)
    requires
        ipv4_of(s) == Some(ip),
    ensures
        ip.len() == 4,
        s == ipv4_text(ip),
{
    let (a, i) = octet_at(s, 0)->0;
    lemma_octet_at(s, 0);
    let (b, j) = octet_at(s, i + 1)->0;
    lemma_octet_at(s, i + 1);
    let (c, k) = octet_at(s, j + 1)->0;
    lemma_octet_at(s, j + 1);
    let (d, end) = octet_at(s, k + 1)->0;
    lemma_octet_at(s, k + 1);
    assert(s =~= s.subrange(0, i) + seq!['.'] + s.subrange(i + 1, j) + seq!['.'] + s.subrange(j + 1, k)
        + seq!['.'] + s.subrange(k + 1, end));
}

/// A decimal number is made of its parts: what stands in front weighs as many
/// powers of ten as there are digits behind it.
pub proof fn decimal_of_joined(a: Seq<char>, b: Seq<char>)
    ensures
        decimal(a + b) == decimal(a) * vstd::arithmetic::power::pow(10, b.len()) + decimal(b),
        forall|c: char| decimal(#[trigger] seq![c]) == c as int - '0' as int,
    decreases b.len(),
{
    assert forall|c: char| decimal(#[trigger] seq![c]) == c as int - '0' as int by {
        assert(seq![c].drop_last() =~= Seq::<char>::empty());
        reveal_with_fuel(decimal, 2);
    }
    reveal(vstd::arithmetic::power::pow);
    if b.len() == 0 {
        assert(a + b =~= a);
        assert(decimal(a) * 1 == decimal(a));
    } else {
        decimal_of_joined(a, b.drop_last());
        assert((a + b).drop_last() =~= a + b.drop_last());
        assert((a + b).last() == b.last());
        let p = vstd::arithmetic::power::pow(10, (b.len() - 1) as nat);
        let v = decimal(a);
        assert((v * p) * 10 == v * (10 * p)) by (nonlinear_arith);
    }
}

/// Zeros in front of a port change nothing.
pub proof fn zeros_in_front_of_a_port(s: Seq<char>)
    ensures
        digits_port(seq!['0'] + s) == digits_port(s),
    decreases s.len(),
{
    let t = seq!['0'] + s;
    if s.len() == 0 {
        assert(t.drop_last() =~= Seq::<char>::empty());
        reveal_with_fuel(digits_port, 2);
    } else {
        zeros_in_front_of_a_port(s.drop_last());
        assert(t.drop_last() =~= seq!['0'] + s.drop_last());
        assert(t.last() == s.last());
    }
}

/// Only decimal digits are a port.
pub proof fn ports_are_digits(s: Seq<char>)
    requires
        digits_port(s) is Ok,
    ensures
        forall|i: int| 0 <= i < s.len() ==> '0' <= #[trigger] s[i] <= '9',
        digits_port(s) == Ok::<int, PortError>(decimal(s)),
        0 <= decimal(s) <= 65535,
    decreases s.len(),
{
    if s.len() > 0 {
        ports_are_digits(s.drop_last());
        assert forall|i: int| 0 <= i < s.len() implies '0' <= #[trigger] s[i] <= '9' by {
            if i < s.len() - 1 {
                assert(s[i] == s.drop_last()[i]);
            }
        }
    }
}

/// The first character that cannot be taken decides: behind digits of a port, one
/// that is no digit is named so, and a digit with which the number gets over
/// 65535 makes it too large, whatever follows.
pub proof fn first_fault_decides(front: Seq<char>, c: char, rest: Seq<char>)
    requires
        forall|i: int| 0 <= i < front.len() ==> '0' <= #[trigger] front[i] <= '9',
        decimal(front) <= 65535,
    ensures
        !('0' <= c <= '9') ==> digits_port(front.push(c) + rest) == Err::<int, PortError>(PortError::InvalidDigit),
        '0' <= c <= '9' && decimal(front) * 10 + (c as int - '0' as int) > 65535 ==> digits_port(
            front.push(c) + rest,
        ) == Err::<int, PortError>(PortError::TooLarge),
{
    port_is_decimal(front);
    let head = front.push(c);
    let s = head + rest;
    assert(head.drop_last() =~= front);
    assert(s.take(head.len() as int) =~= head);
    if digits_port(head) is Err {
        lemma_first_fault(s, head.len() as int);
    }
}

/// A sign in front of a port changes nothing, but alone it is none; nor is empty
/// text.
pub proof fn sign_of_a_port(s: Seq<char>)
    requires
        s.len() > 0,
    ensures
        s[0] != '+' ==> port_of(seq!['+'] + s) == port_of(s) && port_of(s) == digits_port(s),
        s[0] == '+' ==> port_of(seq!['+'] + s) == Err::<int, PortError>(PortError::InvalidDigit),
        port_of(seq!['+']) == Err::<int, PortError>(PortError::InvalidDigit),
        port_of(Seq::empty()) == Err::<int, PortError>(PortError::Empty),
{
    let t = seq!['+'] + s;
    assert(t.drop_first() =~= s);
    if s[0] == '+' {
        first_fault_decides(Seq::empty(), '+', s.drop_first());
        assert(Seq::<char>::empty().push('+') + s.drop_first() =~= s);
    }
}

/// A number up to 255 is written in its decimal digits, with no zero in front
/// unless it is zero.
pub proof fn octet_text_is_decimal(v: u8)
    ensures
        decimal(octet_text(v)) == v,
        1 <= octet_text(v).len() <= 3,
        octet_text(v)[0] == '0' ==> v == 0,
        forall|i: int| 0 <= i < octet_text(v).len() ==> '0' <= #[trigger] octet_text(v)[i] <= '9',
{
    lemma_octet_text(v);
    assert forall|i: int| 0 <= i < octet_text(v).len() implies '0' <= #[trigger] octet_text(v)[i] <= '9' by {
        assert(digit(octet_text(v)[i]));
    }
    if octet_text(v)[0] == '0' {
        assert(octet_text(v) =~= seq!['0']);
        decimal_of_joined(Seq::empty(), seq!['0']);
    }
}

/// An address has its four numbers with single dots between them.
pub proof fn ipv4_text_parts(ip: Seq<u8>)
    requires
        ip.len() == 4,
    ensures
        ipv4_text(ip) == octet_text(ip[0]).push('.') + octet_text(ip[1]).push('.') + octet_text(ip[2]).push('.')
            + octet_text(ip[3]),
{
    assert(ipv4_text(ip) =~= octet_text(ip[0]).push('.') + octet_text(ip[1]).push('.') + octet_text(ip[2]).push(
        '.',
    ) + octet_text(ip[3]));
}

} // verus!
