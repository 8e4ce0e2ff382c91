//! Byte strings as little-endian numbers.
use vstd::prelude::*;

verus! {

/// The number that `b` spells in little-endian order.
pub open spec fn le_nat(b: Seq<u8>) -> nat
    decreases b.len(),
{
    if b.len() == 0 {
        0
    } else {
        b[0] as nat + 256 * le_nat(b.drop_first())
    }
}

/// `256^n`, the number of values that `n` bytes can spell.
pub open spec fn byte_range(n: nat) -> nat
    decreases n,
{
    if n == 0 {
        1
    } else {
        256 * byte_range((n - 1) as nat)
    }
}

/// A little-endian number is smaller than `256^len`.
pub proof fn lemma_le_nat_bound(b: Seq<u8>)
    ensures
        le_nat(b) < byte_range(b.len()),
    decreases b.len(),
{
    if b.len() > 0 {
        lemma_le_nat_bound(b.drop_first());
    }
}

/// The last byte is the most significant one.
pub proof fn lemma_le_nat_last(b: Seq<u8>)
    requires
        b.len() > 0,
    ensures
        le_nat(b) == le_nat(b.drop_last()) + b.last() * byte_range((b.len() - 1) as nat),
    decreases b.len(),
{
    if b.len() == 1 {
        assert(b.drop_first() =~= Seq::<u8>::empty());
        assert(b.drop_last() =~= Seq::<u8>::empty());
        let one = byte_range((b.len() - 1) as nat) as int;
        let x = b.last() as int;
        assert(x * one == x) by (nonlinear_arith)
            requires
                one == 1,
        ;
    } else {
        lemma_le_nat_last(b.drop_first());
        assert(b.drop_first().drop_last() =~= b.drop_last().drop_first());
        let n = (b.len() - 2) as nat;
        let hi = b.last() as int;
        let r = byte_range(n) as int;
        let r256 = byte_range((b.len() - 1) as nat) as int;
        assert(r256 == 256 * r);
        assert(b.drop_last()[0] == b[0]);
        assert(b.drop_first().last() == b.last());
        let mid = le_nat(b.drop_first().drop_last()) as int;
        assert(le_nat(b.drop_first()) == mid + hi * r);
        assert(le_nat(b.drop_last()) == b[0] + 256 * mid);
        assert(256 * (mid + hi * r) == 256 * mid + hi * r256) by (nonlinear_arith)
            requires
                r256 == 256 * r,
        ;
    }
}

/// Two byte strings of one length that spell the same number are equal.
pub proof fn lemma_le_nat_injective(a: Seq<u8>, b: Seq<u8>)
    requires
        a.len() == b.len(),
        le_nat(a) == le_nat(b),
    ensures
        a == b,
    decreases a.len(),
{
    if a.len() > 0 {
        let x = le_nat(a.drop_first()) as int;
        let y = le_nat(b.drop_first()) as int;
        assert(a[0] + 256 * x == b[0] + 256 * y);
        assert(x == y);
        lemma_le_nat_injective(a.drop_first(), b.drop_first());
        assert forall|i: int| 0 <= i < a.len() implies a[i] == b[i] by {
            if i > 0 {
                assert(a.drop_first()[i - 1] == b.drop_first()[i - 1]);
            }
        }
    }
    assert(a =~= b);
}

/// Numbers whose bytes agree above position `i` compare like their bytes at `i`.
proof fn lemma_le_nat_order(a: Seq<u8>, b: Seq<u8>, i: int)
    requires
        a.len() == b.len(),
        0 <= i < a.len(),
        a[i] < b[i],
        forall|j: int| i < j < a.len() ==> a[j] == b[j],
    ensures
        le_nat(a) < le_nat(b),
    decreases a.len(),
{
    lemma_le_nat_last(a);
    lemma_le_nat_last(b);
    let n = (a.len() - 1) as nat;
    let r = byte_range(n) as int;
    if i == a.len() - 1 {
        lemma_le_nat_bound(a.drop_last());
        let x = a.last() as int;
        let y = b.last() as int;
        assert(x * r + r <= y * r) by (nonlinear_arith)
            requires
                x + 1 <= y,
                r >= 0,
        ;
    } else {
        lemma_le_nat_order(a.drop_last(), b.drop_last(), i);
        assert(a.last() == b.last());
    }
}

/// Little-endian `value < rhs`, decided at the most significant byte that differs.
pub fn lt_le(value: &[u8; 32], rhs: &[u8; 32]) -> (r: bool)
    ensures
        r == (le_nat(value@) < le_nat(rhs@)),
{
    let mut i: usize = 32;
    while i > 0
        invariant
            i <= 32,
            forall|j: int| i <= j < 32 ==> value@[j] == rhs@[j],
        decreases i,
    {
        i = i - 1;
        if value[i] != rhs[i] {
            proof {
                if value@[i as int] < rhs@[i as int] {
                    lemma_le_nat_order(value@, rhs@, i as int);
                } else {
                    lemma_le_nat_order(rhs@, value@, i as int);
                }
            }
            return value[i] < rhs[i];
        }
    }
    assert(value@ =~= rhs@);
    false
}

/// Are the two byte arrays equal?
pub fn same32(a: &[u8; 32], b: &[u8; 32]) -> (r: bool)
    ensures
        r == (*a == *b),
        r == (a@ == b@),
{
    let mut i: usize = 0;
    while i < 32
        invariant
            i <= 32,
            forall|j: int| 0 <= j < i ==> a@[j] == b@[j],
        decreases 32 - i,
    {
        if a[i] != b[i] {
            return false;
        }
        i = i + 1;
    }
    assert(a@ =~= b@);
    assert(*a =~= *b);
    true
}

/// The `n` low bytes of `v`, little-endian.
pub open spec fn le_bytes(v: nat, n: nat) -> Seq<u8>
    decreases n,
{
    if n == 0 {
        Seq::empty()
    } else {
        seq![(v % 256) as u8] + le_bytes(v / 256, (n - 1) as nat)
    }
}

pub proof fn lemma_le_bytes_len(v: nat, n: nat)
    ensures
        le_bytes(v, n).len() == n,
    decreases n,
{
    if n > 0 {
        lemma_le_bytes_len(v / 256, (n - 1) as nat);
    }
}

/// Writing a number and reading it back gives the number, where it fits.
pub proof fn lemma_le_bytes_value(v: nat, n: nat)
    requires
        v < byte_range(n),
    ensures
        le_nat(le_bytes(v, n)) == v,
    decreases n,
{
    if n > 0 {
        let m = (n - 1) as nat;
        assert(v / 256 < byte_range(m)) by {
            assert(v < 256 * byte_range(m));
        }
        lemma_le_bytes_value(v / 256, m);
        assert(le_bytes(v, n).drop_first() =~= le_bytes(v / 256, m));
    }
}

/// Reading bytes and writing the number back gives the bytes.
pub proof fn lemma_le_bytes_of_value(b: Seq<u8>)
    ensures
        le_bytes(le_nat(b), b.len()) == b,
    decreases b.len(),
{
    if b.len() > 0 {
        let rest = b.drop_first();
        lemma_le_bytes_of_value(rest);
        let v = le_nat(b);
        assert(v == b[0] as nat + 256 * le_nat(rest));
        assert(v % 256 == b[0] as nat);
        assert(v / 256 == le_nat(rest));
        assert(seq![b[0]] + rest =~= b);
    } else {
        assert(b =~= Seq::<u8>::empty());
    }
}

/// Append the `n` low bytes of `v`, little-endian.
pub fn push_le(out: &mut Vec<u8>, v: u64, n: usize)
    ensures
        final(out)@ == old(out)@ + le_bytes(v as nat, n as nat),
    decreases n,
{
    if n > 0 {
        out.push((v % 256) as u8);
        push_le(out, v / 256, n - 1);
    }
    assert(out@ =~= old(out)@ + le_bytes(v as nat, n as nat));
}

/// Append 32 bytes.
pub fn push32(out: &mut Vec<u8>, b: &[u8; 32])
    ensures
        final(out)@ == old(out)@ + b@,
{
    let mut i: usize = 0;
    while i < 32
        invariant
            i <= 32,
            out@ == old(out)@ + b@.take(i as int),
        decreases 32 - i,
    {
        out.push(b[i]);
        i = i + 1;
        assert(out@ =~= old(out)@ + b@.take(i as int));
    }
    assert(b@.take(32) =~= b@);
}

/// The 32 bytes from position `at` on.
pub fn read32(data: &[u8], at: usize) -> (b: [u8; 32])
    requires
        at + 32 <= data@.len(),
    ensures
        b@ == data@.subrange(at as int, at + 32),
{
    let mut b = [0u8; 32];
    let mut i: usize = 0;
    let len = data.len();
    while i < 32
        invariant
            i <= 32,
            at + 32 <= len,
            len == data@.len(),
            forall|j: int| 0 <= j < i ==> b@[j] == data@[at + j],
        decreases 32 - i,
    {
        b[i] = data[at + i];
        i = i + 1;
    }
    assert(b@ =~= data@.subrange(at as int, at + 32));
    b
}

/// The little-endian number in the `n` bytes from position `at` on.
pub fn read_le(data: &[u8], at: usize, n: usize) -> (v: u64)
    requires
        n <= 8,
        at + n <= data@.len(),
    ensures
        v as nat == le_nat(data@.subrange(at as int, at + n)),
    decreases n,
{
    proof {
        lemma_le_nat_bound(data@.subrange(at as int, at + n));
        lemma_byte_range_8(n as nat);
    }
    let len = data.len();
    assert(at + n <= len);
    if n == 0 {
        0
    } else {
        let rest = read_le(data, at + 1, n - 1);
        assert(data@.subrange(at as int, at + n).drop_first() =~= data@.subrange(
            at + 1,
            at + n,
        ));
        data[at] as u64 + 256 * rest
    }
}

pub proof fn lemma_byte_range_8(n: nat)
    requires
        n <= 8,
    ensures
        byte_range(n) <= byte_range(8),
        byte_range(8) == 0x1_0000_0000_0000_0000,
        byte_range(2) == 0x1_0000,
    decreases 8 - n,
{
    reveal_with_fuel(byte_range, 9);
    if n < 8 {
        lemma_byte_range_8(n + 1);
    }
}

/// A little-endian number counts its first byte once and what follows 256 times; no bytes count
/// nothing.
pub proof fn law_little_endian(first: u8, rest: Seq<u8>)
    ensures
        le_nat(Seq::<u8>::empty()) == 0,
        le_nat(seq![first] + rest) == first + 256 * le_nat(rest),
        byte_range(0) == 1,
        byte_range(rest.len() + 1) == 256 * byte_range(rest.len()),
{
    assert((seq![first] + rest).drop_first() =~= rest);
}

} // verus!
