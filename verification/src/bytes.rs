//! Byte strings: little- and big-endian integers, and fixed-size pieces.

use vstd::prelude::*;

verus! {

/// The number that `s` denotes with its least significant byte first.
pub open spec fn le_value(s: Seq<u8>) -> nat
    decreases s.len(),
{
    if s.len() == 0 {
        0
    } else {
        (s[0] as nat) + 256 * le_value(s.drop_first())
    }
}

/// The `n` lowest bytes of `v`, least significant byte first.
pub open spec fn le_bytes(v: nat, n: nat) -> Seq<u8>
    decreases n,
{
    if n == 0 {
        Seq::empty()
    } else {
        seq![(v % 256) as u8] + le_bytes(v / 256, (n - 1) as nat)
    }
}

/// The number that `s` denotes with its most significant byte first.
pub open spec fn be_value(s: Seq<u8>) -> nat
    decreases s.len(),
{
    if s.len() == 0 {
        0
    } else {
        be_value(s.drop_last()) * 256 + s.last() as nat
    }
}

/// The bit pattern of a signed 64-bit number, read as an unsigned one.
pub open spec fn twos_64(v: i64) -> nat {
    if v >= 0 {
        v as nat
    } else {
        (v + 0x1_0000_0000_0000_0000) as nat
    }
}

/// The bit pattern of a signed 32-bit number, read as an unsigned one.
pub open spec fn twos_32(v: i32) -> nat {
    if v >= 0 {
        v as nat
    } else {
        (v + 0x1_0000_0000) as nat
    }
}

/// The eight bytes of `v`, least significant byte first.
pub open spec fn le_i64(v: i64) -> Seq<u8> {
    le_bytes(twos_64(v), 8)
}

/// The four bytes of `v`, least significant byte first.
pub open spec fn le_i32(v: i32) -> Seq<u8> {
    le_bytes(twos_32(v), 4)
}

/// The four bytes of `v`, least significant byte first.
pub open spec fn le_u32(v: u32) -> Seq<u8> {
    le_bytes(v as nat, 4)
}

/// The signed 64-bit number that eight bytes hold.
pub open spec fn i64_of_le(s: Seq<u8>) -> int {
    let v = le_value(s) as int;
    if v < 0x8000_0000_0000_0000 {
        v
    } else {
        v - 0x1_0000_0000_0000_0000
    }
}

/// The signed 32-bit number that four bytes hold.
pub open spec fn i32_of_le(s: Seq<u8>) -> int {
    let v = le_value(s) as int;
    if v < 0x8000_0000 {
        v
    } else {
        v - 0x1_0000_0000
    }
}

/// A run of `n` zero bytes.
pub open spec fn zeros(n: nat) -> Seq<u8> {
    Seq::new(n, |i: int| 0u8)
}

pub proof fn lemma_le_bytes_len(v: nat, n: nat)
    ensures
        le_bytes(v, n).len() == n,
    decreases n,
{
    if n > 0 {
        lemma_le_bytes_len(v / 256, (n - 1) as nat);
    }
}

/// `256^n`, the number of values that `n` bytes can hold.
pub open spec fn pow256(n: nat) -> nat
    decreases n,
{
    if n == 0 {
        1
    } else {
        256 * pow256((n - 1) as nat)
    }
}

/// Reading back the `n` bytes of a number that fits in them gives the number.
pub proof fn le_value_of_le_bytes(v: nat, n: nat)
    requires
        v < pow256(n),
    ensures
        le_value(le_bytes(v, n)) == v,
    decreases n,
{
    if n > 0 {
        let tail = le_bytes(v / 256, (n - 1) as nat);
        assert(v / 256 < pow256((n - 1) as nat)) by (nonlinear_arith)
            requires
                v < 256 * pow256((n - 1) as nat),
        ;
        le_value_of_le_bytes(v / 256, (n - 1) as nat);
        assert(le_bytes(v, n).drop_first() =~= tail);
    }
}

pub proof fn lemma_le_value_bound(s: Seq<u8>)
    ensures
        le_value(s) < pow256(s.len()),
    decreases s.len(),
{
    if s.len() > 0 {
        lemma_le_value_bound(s.drop_first());
    }
}

pub proof fn lemma_pow256_values()
    ensures
        pow256(1) == 0x100,
        pow256(3) == 0x100_0000,
        pow256(4) == 0x1_0000_0000,
        pow256(8) == 0x1_0000_0000_0000_0000,
{
    reveal_with_fuel(pow256, 9);
}

/// Appends the `n` lowest bytes of `v`, least significant byte first.
pub fn push_le(buf: &mut Vec<u8>, v: u64, n: usize)
    ensures
        final(buf)@ == old(buf)@ + le_bytes(v as nat, n as nat),
{
    let mut left: u64 = v;
    let mut done: usize = 0;
    while done < n
        invariant
            done <= n,
            buf@ + le_bytes(left as nat, (n - done) as nat) =~= old(buf)@ + le_bytes(v as nat, n as nat),
        decreases n - done,
    {
        let ghost before = buf@;
        let ghost k: nat = (n - done) as nat;
        let byte: u8 = (left % 256) as u8;
        buf.push(byte);
        proof {
            assert(before + le_bytes(left as nat, k) =~= buf@ + le_bytes(
                (left / 256) as nat,
                (k - 1) as nat,
            ));
        }
        left = left / 256;
        done = done + 1;
    }
    assert(le_bytes(left as nat, 0) =~= Seq::<u8>::empty());
}

/// Appends the four bytes of `v`, least significant byte first.
pub fn push_u32_le(buf: &mut Vec<u8>, v: u32)
    ensures
        final(buf)@ == old(buf)@ + le_u32(v),
{
    push_le(buf, v as u64, 4);
}

/// Appends the eight bytes of `v`, least significant byte first.
pub fn push_i64_le(buf: &mut Vec<u8>, v: i64)
    ensures
        final(buf)@ == old(buf)@ + le_i64(v),
{
    proof {
        assert(v >= 0 ==> (v as u64) as int == v as int) by (bit_vector);
        assert(v < 0 ==> (v as u64) as int == v as int + 0x1_0000_0000_0000_0000) by (bit_vector);
    }
    push_le(buf, v as u64, 8);
}

/// Appends the four bytes of `v`, least significant byte first.
pub fn push_i32_le(buf: &mut Vec<u8>, v: i32)
    ensures
        final(buf)@ == old(buf)@ + le_i32(v),
{
    proof {
        assert(v >= 0 ==> (v as u32) as int == v as int) by (bit_vector);
        assert(v < 0 ==> (v as u32) as int == v as int + 0x1_0000_0000) by (bit_vector);
    }
    push_le(buf, (v as u32) as u64, 4);
}

/// The number in the four bytes of `s` from `at` on, least significant first.
pub fn read_u32_le(s: &[u8], at: usize) -> (r: u32)
    requires
        at + 4 <= s@.len(),
    ensures
        r as nat == le_value(s@.subrange(at as int, at + 4)),
{
    let mut v: u32 = 0;
    let mut i: usize = 4;
    while i > 0
        invariant
            i <= 4,
            at + 4 <= s@.len() == s.len(),
            v as nat == le_value(s@.subrange(at + i, at + 4)),
            v < pow256((4 - i) as nat),
        decreases i,
    {
        proof {
            lemma_pow256_values();
            reveal_with_fuel(pow256, 5);
            assert(s@.subrange(at + i - 1, at + 4).drop_first() =~= s@.subrange(at + i, at + 4));
        }
        i = i - 1;
        v = s[at + i] as u32 + 256 * v;
        proof {
            lemma_le_value_bound(s@.subrange(at + i, at + 4));
        }
    }
    assert(s@.subrange(at + 0, at + 4) =~= s@.subrange(at as int, at + 4));
    v
}

/// The number in the eight bytes of `s` from `at` on, least significant first.
pub fn read_i64_le(s: &[u8], at: usize) -> (r: i64)
    requires
        at + 8 <= s@.len(),
    ensures
        r == i64_of_le(s@.subrange(at as int, at + 8)),
{
    let mut v: u64 = 0;
    let mut i: usize = 8;
    while i > 0
        invariant
            i <= 8,
            at + 8 <= s@.len() == s.len(),
            v as nat == le_value(s@.subrange(at + i, at + 8)),
            v < pow256((8 - i) as nat),
        decreases i,
    {
        proof {
            lemma_pow256_values();
            reveal_with_fuel(pow256, 9);
            assert(s@.subrange(at + i - 1, at + 8).drop_first() =~= s@.subrange(at + i, at + 8));
        }
        i = i - 1;
        v = s[at + i] as u64 + 256 * v;
        proof {
            lemma_le_value_bound(s@.subrange(at + i, at + 8));
        }
    }
    proof {
        assert(s@.subrange(at + 0, at + 8) =~= s@.subrange(at as int, at + 8));
        assert(v < 0x8000_0000_0000_0000 ==> (v as i64) as int == v as int) by (bit_vector);
        assert(v >= 0x8000_0000_0000_0000 ==> (v as i64) as int == v as int - 0x1_0000_0000_0000_0000)
            by (bit_vector);
    }
    v as i64
}

/// The number in the four bytes of `s` from `at` on, least significant first.
pub fn read_i32_le(s: &[u8], at: usize) -> (r: i32)
    requires
        at + 4 <= s@.len(),
    ensures
        r == i32_of_le(s@.subrange(at as int, at + 4)),
{
    let v: u32 = read_u32_le(s, at);
    proof {
        assert(v < 0x8000_0000 ==> (v as i32) as int == v as int) by (bit_vector);
        assert(v >= 0x8000_0000 ==> (v as i32) as int == v as int - 0x1_0000_0000) by (bit_vector);
    }
    v as i32
}

/// Appends `n` zero bytes.
pub fn push_zeros(buf: &mut Vec<u8>, n: usize)
    ensures
        final(buf)@ == old(buf)@ + zeros(n as nat),
{
    let mut i: usize = 0;
    while i < n
        invariant
            i <= n,
            buf@ =~= old(buf)@ + zeros(i as nat),
        decreases n - i,
    {
        buf.push(0u8);
        i = i + 1;
    }
}

/// Appends the bytes of `s`.
pub fn push_slice(buf: &mut Vec<u8>, s: &[u8])
    ensures
        final(buf)@ == old(buf)@ + s@,
{
    buf.extend_from_slice(s);
}

/// A copy of the bytes of `s` from `from` up to `to`.
pub fn copy_range(s: &[u8], from: usize, to: usize) -> (r: Vec<u8>)
    requires
        from <= to <= s@.len(),
    ensures
        r@ == s@.subrange(from as int, to as int),
{
    let mut r: Vec<u8> = Vec::new();
    let mut i: usize = from;
    while i < to
        invariant
            from <= i <= to <= s@.len(),
            r@ =~= s@.subrange(from as int, i as int),
        decreases to - i,
    {
        r.push(s[i]);
        i = i + 1;
    }
    r
}

/// The `N` bytes of `s` from `at` on, as an array.
pub fn array_at<const N: usize>(s: &[u8], at: usize) -> (r: [u8; N])
    requires
        at + N <= s@.len(),
    ensures
        r@ == s@.subrange(at as int, at + N),
{
    let mut r: [u8; N] = [0u8; N];
    let mut i: usize = 0;
    while i < N
        invariant
            i <= N,
            at + N <= s@.len() == s.len(),
            r@.len() == N,
            forall|j: int| 0 <= j < i ==> r@[j] == s@[at + j],
        decreases N - i,
    {
        r[i] = s[at + i];
        i = i + 1;
    }
    assert(r@ =~= s@.subrange(at as int, at + N));
    r
}

/// Whether two byte strings are the same.
pub fn same_bytes(a: &[u8], b: &[u8]) -> (r: bool)
    ensures
        r == (a@ == b@),
{
    if a.len() != b.len() {
        return false;
    }
    let mut i: usize = 0;
    while i < a.len()
        invariant
            a@.len() == b@.len(),
            i <= a@.len(),
            forall|j: int| 0 <= j < i ==> a@[j] == b@[j],
        decreases a@.len() - i,
    {
        if a[i] != b[i] {
            return false;
        }
        i = i + 1;
    }
    assert(a@ =~= b@);
    true
}

/// Each byte of the little-endian form is a digit of the number in base 256, the
/// lowest first.
pub proof fn le_bytes_are_digits(v: nat, n: nat, i: nat)
    requires
        i < n,
    ensures
        le_bytes(v, n).len() == n,
        le_bytes(v, n)[i as int] as nat == v / pow256(i) % 256,
    decreases n,
{
    lemma_le_bytes_len(v, n);
    if i > 0 {
        let j = (i - 1) as nat;
        le_bytes_are_digits(v / 256, (n - 1) as nat, j);
        lemma_pow256_positive(j);
        vstd::arithmetic::div_mod::lemma_div_denominator(v as int, 256, pow256(j) as int);
        assert(le_bytes(v, n)[i as int] == le_bytes(v / 256, (n - 1) as nat)[j as int]);
    } else {
        assert(pow256(0) == 1);
        assert(v / 1 == v);
    }
}

proof fn lemma_pow256_positive(n: nat)
    ensures
        pow256(n) > 0,
    decreases n,
{
    if n > 0 {
        lemma_pow256_positive((n - 1) as nat);
    }
}

/// In a little-endian number what stands behind weighs as many powers of 256 as
/// there are bytes before it.
pub proof fn le_value_of_joined(a: Seq<u8>, b: Seq<u8>)
    ensures
        le_value(a + b) == le_value(a) + pow256(a.len()) * le_value(b),
        forall|x: u8| le_value(#[trigger] seq![x]) == x,
    decreases a.len(),
{
    assert forall|x: u8| le_value(#[trigger] seq![x]) == x by {
        assert(seq![x].drop_first() =~= Seq::<u8>::empty());
        reveal_with_fuel(le_value, 2);
    }
    if a.len() == 0 {
        assert(a + b =~= b);
        assert(pow256(0) == 1);
        assert(1 * le_value(b) == le_value(b));
    } else {
        le_value_of_joined(a.drop_first(), b);
        assert((a + b).drop_first() =~= a.drop_first() + b);
        let p = pow256((a.len() - 1) as nat);
        let v = le_value(b);
        assert(256 * (p * v) == (256 * p) * v) by (nonlinear_arith);
    }
}

/// In a big-endian number what stands in front weighs as many powers of 256 as
/// there are bytes behind it.
pub proof fn be_value_of_joined(a: Seq<u8>, b: Seq<u8>)
    ensures
        be_value(a + b) == be_value(a) * pow256(b.len()) + be_value(b),
        forall|x: u8| be_value(#[trigger] seq![x]) == x,
    decreases b.len(),
{
    assert forall|x: u8| be_value(#[trigger] seq![x]) == x by {
        assert(seq![x].drop_last() =~= Seq::<u8>::empty());
        reveal_with_fuel(be_value, 2);
    }
    if b.len() == 0 {
        assert(a + b =~= a);
        assert(pow256(0) == 1);
        assert(be_value(a) * 1 == be_value(a));
    } else {
        be_value_of_joined(a, b.drop_last());
        assert((a + b).drop_last() =~= a + b.drop_last());
        assert((a + b).last() == b.last());
        let p = pow256((b.len() - 1) as nat);
        let v = be_value(a);
        assert((v * p) * 256 == v * (256 * p)) by (nonlinear_arith);
    }
}

/// Bytes are the little-endian form of the number that they denote.
pub proof fn le_bytes_of_le_value(s: Seq<u8>)
    ensures
        le_bytes(le_value(s), s.len()) == s,
    decreases s.len(),
{
    if s.len() == 0 {
        assert(le_bytes(le_value(s), 0) =~= s);
    } else {
        let rest = s.drop_first();
        le_bytes_of_le_value(rest);
        assert(le_value(s) % 256 == s[0]);
        assert(le_value(s) / 256 == le_value(rest));
        assert(le_bytes(le_value(s), s.len()) =~= seq![s[0]] + rest);
        assert(seq![s[0]] + rest =~= s);
    }
}

/// A signed number and its bit pattern are the same modulo the number of
/// patterns.
pub proof fn bit_patterns(v: i64, w: i32)
    ensures
        twos_64(v) < 0x1_0000_0000_0000_0000,
        (twos_64(v) - v) % 0x1_0000_0000_0000_0000 == 0,
        twos_32(w) < 0x1_0000_0000,
        (twos_32(w) - w) % 0x1_0000_0000 == 0,
{
}

/// Numbers of four and eight bytes are read back from their bytes.
pub proof fn numbers_read_back(v: i64, w: i32, u: u32)
    ensures
        le_i64(v).len() == 8,
        i64_of_le(le_i64(v)) == v,
        le_i32(w).len() == 4,
        i32_of_le(le_i32(w)) == w,
        le_u32(u).len() == 4,
        le_value(le_u32(u)) == u,
{
    lemma_pow256_values();
    lemma_le_bytes_len(twos_64(v), 8);
    le_value_of_le_bytes(twos_64(v), 8);
    lemma_le_bytes_len(twos_32(w), 4);
    le_value_of_le_bytes(twos_32(w), 4);
    lemma_le_bytes_len(u as nat, 4);
    le_value_of_le_bytes(u as nat, 4);
}

/// Any eight bytes are those of the signed number that they hold.
pub proof fn any_eight_bytes_are_a_number(s: Seq<u8>)
    requires
        s.len() == 8,
    ensures
        i64::MIN <= i64_of_le(s) <= i64::MAX,
        le_i64(i64_of_le(s) as i64) == s,
{
    lemma_pow256_values();
    lemma_le_value_bound(s);
    le_bytes_of_le_value(s);
}

/// Any four bytes are those of the signed number that they hold.
pub proof fn any_four_bytes_are_a_number(s: Seq<u8>)
    requires
        s.len() == 4,
    ensures
        i32::MIN <= i32_of_le(s) <= i32::MAX,
        le_i32(i32_of_le(s) as i32) == s,
{
    lemma_pow256_values();
    lemma_le_value_bound(s);
    le_bytes_of_le_value(s);
}

/// The bytes of a number that does not fit in them hold its low part.
pub proof fn le_bytes_keep_the_low_part(v: nat, n: nat)
    ensures
        le_value(le_bytes(v, n)) == v % pow256(n),
    decreases n,
{
    if n == 0 {
        assert(pow256(0) == 1);
        assert(v % 1 == 0);
    } else {
        let m = (n - 1) as nat;
        le_bytes_keep_the_low_part(v / 256, m);
        lemma_pow256_positive(m);
        vstd::arithmetic::div_mod::lemma_mod_breakdown(v as int, 256, pow256(m) as int);
        assert(le_bytes(v, n).drop_first() =~= le_bytes(v / 256, m));
    }
}

/// A run of zero bytes denotes zero, and has its length.
pub proof fn zeros_are_zero(n: nat)
    ensures
        zeros(n).len() == n,
        forall|i: int| 0 <= i < n ==> #[trigger] zeros(n)[i] == 0,
{
}

} // verus!
