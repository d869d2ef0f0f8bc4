//! Little-endian byte strings and the integers they stand for.

use vstd::prelude::*;
use vstd::arithmetic::div_mod::lemma_div_denominator;
use vstd::arithmetic::div_mod::lemma_fundamental_div_mod;

verus! {

/// `256^n`.
pub open spec fn pow256(n: nat) -> nat
    decreases n,
{
    if n == 0 {
        1
    } else {
        256 * pow256((n - 1) as nat)
    }
}

/// The integer that a little-endian byte string stands for.
pub open spec fn le_value(s: Seq<u8>) -> nat
    decreases s.len(),
{
    if s.len() == 0 {
        0
    } else {
        (s[0] as nat) + 256 * le_value(s.drop_first())
    }
}

/// The `n` low bytes of `x`, least significant first.
pub open spec fn le_bytes(x: nat, n: nat) -> Seq<u8> {
    Seq::new(n, |i: int| ((x / pow256(i as nat)) % 256) as u8)
}

/// `n` zero bytes.
pub open spec fn zeros(n: nat) -> Seq<u8> {
    Seq::new(n, |i: int| 0u8)
}

/// Powers of 256 are positive.
pub proof fn lemma_pow256_positive(n: nat)
    ensures
        pow256(n) > 0,
    decreases n,
{
    if n > 0 {
        lemma_pow256_positive((n - 1) as nat);
    }
}

/// A byte string of length `n` stands for an integer below `256^n`.
pub proof fn lemma_le_value_bound(s: Seq<u8>)
    ensures
        le_value(s) < pow256(s.len()),
    decreases s.len(),
{
    if s.len() > 0 {
        lemma_le_value_bound(s.drop_first());
    }
}

/// Zero bytes stand for zero.
pub proof fn lemma_le_value_zeros(n: nat)
    ensures
        le_value(zeros(n)) == 0,
    decreases n,
{
    if n > 0 {
        assert(zeros(n).drop_first() =~= zeros((n - 1) as nat));
        lemma_le_value_zeros((n - 1) as nat);
    }
}

/// Zero bytes on top of a byte string leave its value as it is.
pub proof fn lemma_le_value_zero_extend(s: Seq<u8>, n: nat)
    ensures
        le_value(s + zeros(n)) == le_value(s),
    decreases s.len(),
{
    if s.len() == 0 {
        assert(s + zeros(n) =~= zeros(n));
        lemma_le_value_zeros(n);
    } else {
        assert((s + zeros(n)).drop_first() =~= s.drop_first() + zeros(n));
        lemma_le_value_zero_extend(s.drop_first(), n);
    }
}

/// The bytes of `x` stand for `x`, as long as there are enough of them.
pub proof fn lemma_le_value_of_le_bytes(x: nat, n: nat)
    requires
        x < pow256(n),
    ensures
        le_value(le_bytes(x, n)) == x,
    decreases n,
{
    if n == 0 {
    } else {
        let s = le_bytes(x, n);
        let t = le_bytes(x / 256, (n - 1) as nat);
        assert(s.drop_first() =~= t) by {
            assert forall|i: int| 0 <= i < n - 1 implies s.drop_first()[i] == t[i] by {
                lemma_pow256_positive(i as nat);
                lemma_div_denominator(x as int, 256, pow256(i as nat) as int);
                assert(pow256((i + 1) as nat) == 256 * pow256(i as nat));
            }
        }
        assert(x / 256 < pow256((n - 1) as nat)) by {
            lemma_fundamental_div_mod(x as int, 256);
        }
        lemma_le_value_of_le_bytes(x / 256, (n - 1) as nat);
        assert(pow256(0) == 1);
        assert(x / 1 == x);
        assert(s[0] == ((x / pow256(0)) % 256) as u8);
        lemma_fundamental_div_mod(x as int, 256);
    }
}

/// Byte strings of one length that stand for one integer are the same string.
pub proof fn lemma_le_value_injective(a: Seq<u8>, b: Seq<u8>)
    requires
        a.len() == b.len(),
        le_value(a) == le_value(b),
    ensures
        a == b,
    decreases a.len(),
{
    if a.len() == 0 {
        assert(a =~= b);
    } else {
        lemma_le_value_injective(a.drop_first(), b.drop_first());
        assert(a =~= seq![a[0]] + a.drop_first());
        assert(b =~= seq![b[0]] + b.drop_first());
    }
}

/// The two little-endian bytes of a 16-bit integer.
pub open spec fn u16_le(x: u16) -> Seq<u8> {
    seq![(x % 256) as u8, (x / 256) as u8]
}

/// The eight little-endian bytes of a 64-bit integer.
pub open spec fn u64_le(x: u64) -> Seq<u8> {
    le_bytes(x as nat, 8)
}

/// The eight little-endian bytes of a signed 64-bit integer in two's complement.
pub open spec fn i64_le(x: i64) -> Seq<u8> {
    u64_le(x as u64)
}

/// Appends the two little-endian bytes of `x` to `out`.
pub fn put_u16(out: &mut Vec<u8>, x: u16)
    ensures
        final(out)@ == old(out)@ + u16_le(x),
{
    assert(x & 0xff == x % 256) by (bit_vector);
    assert(x >> 8 == x / 256) by (bit_vector);
    let lo: u8 = (x & 0xff) as u8;
    let hi: u8 = (x >> 8) as u8;
    out.push(lo);
    out.push(hi);
    assert(out@ =~= old(out)@ + u16_le(x));
}

/// Appends the eight little-endian bytes of `x` to `out`.
pub fn put_u64(out: &mut Vec<u8>, x: u64)
    ensures
        final(out)@ == old(out)@ + u64_le(x),
{
    let mut v: u64 = x;
    let mut i: usize = 0;
    assert(pow256(0) == 1);
    assert(out@ =~= old(out)@ + le_bytes(x as nat, 0));
    while i < 8
        invariant
            i <= 8,
            v as nat == (x as nat) / pow256(i as nat),
            out@ == old(out)@ + le_bytes(x as nat, i as nat),
        decreases 8 - i,
    {
        assert(v & 0xff == v % 256) by (bit_vector);
        let b: u8 = (v & 0xff) as u8;
        assert(v >> 8 == v / 256) by (bit_vector);
        proof {
            lemma_pow256_positive(i as nat);
            lemma_div_denominator(x as int, pow256(i as nat) as int, 256);
            assert(pow256((i + 1) as nat) == 256 * pow256(i as nat));
            assert(pow256(i as nat) * 256 == 256 * pow256(i as nat));
        }
        out.push(b);
        v = v >> 8;
        i = i + 1;
        assert(out@ =~= old(out)@ + le_bytes(x as nat, i as nat));
    }
}

/// Appends the eight two's-complement little-endian bytes of `x` to `out`.
pub fn put_i64(out: &mut Vec<u8>, x: i64)
    ensures
        final(out)@ == old(out)@ + i64_le(x),
{
    put_u64(out, x as u64);
}

/// Appends the bytes of `src` to `out`.
pub fn put_slice(out: &mut Vec<u8>, src: &[u8])
    ensures
        final(out)@ == old(out)@ + src@,
{
    let mut i: usize = 0;
    while i < src.len()
        invariant
            i <= src.len(),
            out@ == old(out)@ + src@.take(i as int),
        decreases src.len() - i,
    {
        out.push(src[i]);
        i = i + 1;
        assert(out@ =~= old(out)@ + src@.take(i as int));
    }
    assert(src@.take(src.len() as int) =~= src@);
}

/// Whether two 32-byte strings are the same.
pub fn same_bytes(a: &[u8; 32], b: &[u8; 32]) -> (r: bool)
    ensures
        r == (a@ == b@),
{
    let mut i: usize = 0;
    while i < 32
        invariant
            i <= 32,
            a@.take(i as int) == b@.take(i as int),
        decreases 32 - i,
    {
        if a[i] != b[i] {
            assert(a@[i as int] != b@[i as int]);
            return false;
        }
        i = i + 1;
        assert(a@.take(i as int) =~= a@.take(i - 1).push(a@[i - 1]));
        assert(b@.take(i as int) =~= b@.take(i - 1).push(b@[i - 1]));
    }
    assert(a@.take(32) =~= a@);
    assert(b@.take(32) =~= b@);
    true
}

/// Two strings that start with heads of one length and are the same as a whole have the same
/// heads and the same tails.
pub proof fn lemma_concat_split(x1: Seq<u8>, y1: Seq<u8>, x2: Seq<u8>, y2: Seq<u8>)
    requires
        x1 + y1 == x2 + y2,
        x1.len() == x2.len(),
    ensures
        x1 == x2,
        y1 == y2,
{
    assert(x1 =~= (x1 + y1).take(x1.len() as int));
    assert(x2 =~= (x2 + y2).take(x2.len() as int));
    assert(y1 =~= (x1 + y1).skip(x1.len() as int));
    assert(y2 =~= (x2 + y2).skip(x2.len() as int));
}

/// The two bytes of a 16-bit integer tell it from every other.
pub proof fn lemma_u16_le_injective(a: u16, b: u16)
    requires
        u16_le(a) == u16_le(b),
    ensures
        a == b,
{
    assert(u16_le(a)[0] == u16_le(b)[0]);
    assert(u16_le(a)[1] == u16_le(b)[1]);
}

/// The eight bytes of a 64-bit integer tell it from every other.
pub proof fn lemma_u64_le_injective(a: u64, b: u64)
    requires
        u64_le(a) == u64_le(b),
    ensures
        a == b,
{
    assert(pow256(8) == 0x1_0000_0000_0000_0000) by {
        reveal_with_fuel(pow256, 9);
    }
    lemma_le_value_of_le_bytes(a as nat, 8);
    lemma_le_value_of_le_bytes(b as nat, 8);
}

/// The eight bytes of a signed 64-bit integer tell it from every other.
pub proof fn lemma_i64_le_injective(a: i64, b: i64)
    requires
        i64_le(a) == i64_le(b),
    ensures
        a == b,
{
    lemma_u64_le_injective(a as u64, b as u64);
    assert(a as u64 == b as u64 ==> a == b) by (bit_vector);
}

/// Whether the bytes `e` stand in `s` from position `pos` on.
pub open spec fn is_prefix_at(e: Seq<u8>, s: Seq<u8>, pos: int) -> bool {
    0 <= pos && pos + e.len() <= s.len() && s.subrange(pos, pos + e.len()) == e
}

/// Where two strings stand one after the other, the first stands there and the second stands
/// behind it, and the other way round.
pub proof fn lemma_prefix_concat(a: Seq<u8>, b: Seq<u8>, s: Seq<u8>, pos: int)
    ensures
        is_prefix_at(a + b, s, pos) <==> is_prefix_at(a, s, pos) && is_prefix_at(b, s, pos + a.len()),
{
    if is_prefix_at(a + b, s, pos) {
        assert(s.subrange(pos, pos + a.len()) =~= (a + b).subrange(0, a.len() as int));
        assert((a + b).subrange(0, a.len() as int) =~= a);
        assert(s.subrange(pos + a.len(), pos + a.len() + b.len()) =~= (a + b).subrange(
            a.len() as int,
            (a + b).len() as int,
        ));
        assert((a + b).subrange(a.len() as int, (a + b).len() as int) =~= b);
    }
    if is_prefix_at(a, s, pos) && is_prefix_at(b, s, pos + a.len()) {
        assert(s.subrange(pos, pos + (a + b).len()) =~= s.subrange(pos, pos + a.len()) + s.subrange(
            pos + a.len(),
            pos + a.len() + b.len(),
        ));
    }
}

/// Reads a 16-bit integer from its two little-endian bytes at `pos`; nothing where fewer than
/// two bytes are left.
pub fn get_u16(bytes: &[u8], pos: usize) -> (r: Option<(u16, usize)>)
    ensures
        r is Some <==> pos + 2 <= bytes@.len(),
        r matches Some((x, end)) ==> end == pos + 2 && is_prefix_at(u16_le(x), bytes@, pos as int),
        forall|x: u16| #[trigger] is_prefix_at(u16_le(x), bytes@, pos as int) ==> r == Some((x, (pos + 2) as usize)),
{
    if bytes.len() < 2 || pos > bytes.len() - 2 {
        return None;
    }
    let lo = bytes[pos];
    let hi = bytes[pos + 1];
    let x: u16 = (lo as u16) | ((hi as u16) << 8);
    assert(x % 256 == lo && x / 256 == hi) by (bit_vector)
        requires
            x == (lo as u16) | ((hi as u16) << 8),
    ;
    proof {
        assert(bytes@.subrange(pos as int, pos + 2) =~= u16_le(x));
        assert forall|y: u16| #[trigger] is_prefix_at(u16_le(y), bytes@, pos as int) implies y == x by {
            lemma_u16_le_injective(x, y);
        }
    }
    Some((x, pos + 2))
}

/// Reads 32 bytes at `pos`; nothing where fewer are left.
pub fn get_bytes32(bytes: &[u8], pos: usize) -> (r: Option<([u8; 32], usize)>)
    ensures
        r is Some <==> pos + 32 <= bytes@.len(),
        r matches Some((a, end)) ==> end == pos + 32 && is_prefix_at(a@, bytes@, pos as int),
        forall|a: [u8; 32]| #[trigger] is_prefix_at(a@, bytes@, pos as int) ==> r == Some((a, (pos + 32) as usize)),
{
    if bytes.len() < 32 || pos > bytes.len() - 32 {
        return None;
    }
    let mut a = [0u8; 32];
    let mut i: usize = 0;
    while i < 32
        invariant
            i <= 32,
            pos + 32 <= bytes.len(),
            forall|j: int| 0 <= j < i ==> a@[j] == bytes@[pos + j],
        decreases 32 - i,
    {
        a[i] = bytes[pos + i];
        i = i + 1;
    }
    assert(bytes@.subrange(pos as int, pos + 32) =~= a@);
    assert forall|b: [u8; 32]| #[trigger] is_prefix_at(b@, bytes@, pos as int) implies b == a by {
        assert(b =~= a);
    }
    Some((a, pos + 32))
}

/// A byte string is made of the bytes of the integer that it stands for.
pub proof fn lemma_le_bytes_of_le_value(s: Seq<u8>)
    ensures
        le_bytes(le_value(s), s.len()) == s,
{
    lemma_le_value_bound(s);
    lemma_le_value_of_le_bytes(le_value(s), s.len());
    lemma_le_value_injective(le_bytes(le_value(s), s.len()), s);
}

/// Reads a 64-bit integer from its eight little-endian bytes at `pos`; nothing where fewer than
/// eight bytes are left.
pub fn get_u64(bytes: &[u8], pos: usize) -> (r: Option<(u64, usize)>)
    ensures
        r is Some <==> pos + 8 <= bytes@.len(),
        r matches Some((x, end)) ==> end == pos + 8 && is_prefix_at(u64_le(x), bytes@, pos as int),
        forall|x: u64| #[trigger] is_prefix_at(u64_le(x), bytes@, pos as int) ==> r == Some((x, (pos + 8) as usize)),
{
    if bytes.len() < 8 || pos > bytes.len() - 8 {
        assert forall|x: u64| #[trigger] is_prefix_at(u64_le(x), bytes@, pos as int) implies false by {
            assert(u64_le(x).len() == 8);
        }
        return None;
    }
    let ghost s = bytes@.subrange(pos as int, pos + 8);
    let mut x: u64 = 0;
    let mut i: usize = 8;
    assert(s.skip(8) =~= Seq::<u8>::empty());
    assert(pow256(0) == 1);
    while i > 0
        invariant
            i <= 8,
            pos + 8 <= bytes.len(),
            s == bytes@.subrange(pos as int, pos + 8),
            x == le_value(s.skip(i as int)),
            x < pow256((8 - i) as nat),
        decreases i,
    {
        i = i - 1;
        let b = bytes[pos + i];
        proof {
            assert(s.skip(i as int).drop_first() =~= s.skip(i + 1));
            assert(s.skip(i as int)[0] == b);
            assert(pow256((8 - i) as nat) == 256 * pow256((7 - i) as nat));
            assert(pow256(8) == 0x1_0000_0000_0000_0000) by {
                reveal_with_fuel(pow256, 9);
            }
            lemma_pow256_monotonic((8 - i) as nat, 8);
        }
        x = x * 256 + (b as u64);
    }
    proof {
        assert(s.skip(0) =~= s);
        lemma_le_bytes_of_le_value(s);
        assert forall|y: u64| #[trigger] is_prefix_at(u64_le(y), bytes@, pos as int) implies y == x by {
            assert(u64_le(y).len() == 8);
            lemma_u64_le_injective(x, y);
        }
    }
    Some((x, pos + 8))
}

/// A larger power of 256 is no smaller.
pub proof fn lemma_pow256_monotonic(a: nat, b: nat)
    requires
        a <= b,
    ensures
        pow256(a) <= pow256(b),
    decreases b,
{
    if a < b {
        lemma_pow256_monotonic(a, (b - 1) as nat);
    }
}

/// Reads a signed 64-bit integer from its eight two's-complement little-endian bytes at `pos`;
/// nothing where fewer than eight bytes are left.
pub fn get_i64(bytes: &[u8], pos: usize) -> (r: Option<(i64, usize)>)
    ensures
        r is Some <==> pos + 8 <= bytes@.len(),
        r matches Some((x, end)) ==> end == pos + 8 && is_prefix_at(i64_le(x), bytes@, pos as int),
        forall|x: i64| #[trigger] is_prefix_at(i64_le(x), bytes@, pos as int) ==> r == Some((x, (pos + 8) as usize)),
{
    match get_u64(bytes, pos) {
        None => {
            assert forall|x: i64| #[trigger] is_prefix_at(i64_le(x), bytes@, pos as int) implies false by {
                assert(is_prefix_at(u64_le(x as u64), bytes@, pos as int));
            }
            None
        },
        Some((u, end)) => {
            let x = u as i64;
            assert(x as u64 == u) by (bit_vector)
                requires
                    x == u as i64,
            ;
            assert forall|y: i64| #[trigger] is_prefix_at(i64_le(y), bytes@, pos as int) implies y == x by {
                assert(is_prefix_at(u64_le(y as u64), bytes@, pos as int));
                lemma_i64_le_injective(x, y);
            }
            Some((x, end))
        },
    }
}

/// The bytes of `bytes` from `start` on, `len` of them.
pub fn copy_range(bytes: &[u8], start: usize, len: usize) -> (r: Vec<u8>)
    requires
        start + len <= bytes@.len(),
    ensures
        r@ == bytes@.subrange(start as int, start + len),
{
    let mut data: Vec<u8> = Vec::new();
    let mut i: usize = 0;
    assert(data@ =~= bytes@.subrange(start as int, start as int));
    while i < len
        invariant
            i <= len,
            start + len <= bytes.len(),
            data@ == bytes@.subrange(start as int, start + i),
        decreases len - i,
    {
        data.push(bytes[start + i]);
        i = i + 1;
        assert(data@ =~= bytes@.subrange(start as int, start + i));
    }
    data
}

/// How `a` stands to `b` in the order of byte strings, in which the first byte that differs
/// decides and a proper prefix comes first: -1 where `a` comes first, 1 where `b` does, 0 where
/// they are the same.
pub open spec fn lex_sign(a: Seq<u8>, b: Seq<u8>) -> int
    decreases a.len(),
{
    if a.len() == 0 && b.len() == 0 {
        0
    } else if a.len() == 0 {
        -1
    } else if b.len() == 0 {
        1
    } else if a[0] < b[0] {
        -1
    } else if a[0] > b[0] {
        1
    } else {
        lex_sign(a.drop_first(), b.drop_first())
    }
}

/// Byte strings are the same if and only if neither comes before the other.
pub proof fn lemma_lex_sign_zero(a: Seq<u8>, b: Seq<u8>)
    ensures
        lex_sign(a, b) == 0 <==> a == b,
    decreases a.len(),
{
    if a.len() == 0 || b.len() == 0 {
        if a.len() == 0 && b.len() == 0 {
            assert(a =~= b);
        }
    } else {
        lemma_lex_sign_zero(a.drop_first(), b.drop_first());
        if a[0] == b[0] && a.drop_first() == b.drop_first() {
            assert(a =~= seq![a[0]] + a.drop_first());
            assert(b =~= seq![b[0]] + b.drop_first());
        }
    }
}

/// How the 32 bytes of `a` stand to those of `b` in the order of byte strings.
pub fn lex_compare(a: &[u8; 32], b: &[u8; 32]) -> (r: i8)
    ensures
        r == lex_sign(a@, b@),
{
    let mut i: usize = 0;
    assert(a@.skip(0) =~= a@);
    assert(b@.skip(0) =~= b@);
    while i < 32
        invariant
            i <= 32,
            lex_sign(a@, b@) == lex_sign(a@.skip(i as int), b@.skip(i as int)),
        decreases 32 - i,
    {
        proof {
            assert(a@.skip(i as int)[0] == a@[i as int]);
            assert(b@.skip(i as int)[0] == b@[i as int]);
            assert(a@.skip(i as int).drop_first() =~= a@.skip(i + 1));
            assert(b@.skip(i as int).drop_first() =~= b@.skip(i + 1));
        }
        if a[i] < b[i] {
            return -1;
        }
        if a[i] > b[i] {
            return 1;
        }
        i = i + 1;
    }
    0
}

} // verus!
