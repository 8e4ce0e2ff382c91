//! Ed25519 scalars and points, held as their byte encodings.
//!
//! Monero and Solana both work on this curve, so one point is at once a Solana commitment and
//! a Monero public key half. The curve arithmetic itself is `curve25519-dalek`'s.
use curve25519_dalek::edwards::{CompressedEdwardsY, EdwardsPoint};
use vstd::prelude::*;

use crate::bytes;

verus! {

/// Order of the Ed25519 prime-order subgroup,
/// `2^252 + 27742317777372353535851937790883648493`, as 32 little-endian bytes.
pub const ED25519_ORDER: [u8; 32] = [
    0xed, 0xd3, 0xf5, 0x5c, 0x1a, 0x63, 0x12, 0x58, 0xd6, 0x9c, 0xf7, 0xa2, 0xde, 0xf9, 0xde, 0x14,
    0x00, 0x00, 0x00, 0x00, 0x00, 0x00, 0x00, 0x00, 0x00, 0x00, 0x00, 0x00, 0x00, 0x00, 0x00, 0x10,
];

/// The field prime `2^255 - 19`, as 32 little-endian bytes.
pub const ED25519_FIELD_PRIME: [u8; 32] = [
    0xed, 0xff, 0xff, 0xff, 0xff, 0xff, 0xff, 0xff, 0xff, 0xff, 0xff, 0xff, 0xff, 0xff, 0xff, 0xff,
    0xff, 0xff, 0xff, 0xff, 0xff, 0xff, 0xff, 0xff, 0xff, 0xff, 0xff, 0xff, 0xff, 0xff, 0xff, 0x7f,
];

/// The compressed identity point, `0·G`: `y` is one and the sign bit is clear.
pub const ED25519_IDENTITY: [u8; 32] = [
    1, 0, 0, 0, 0, 0, 0, 0, 0, 0, 0, 0, 0, 0, 0, 0, 0, 0, 0, 0, 0, 0, 0, 0, 0, 0, 0, 0, 0, 0, 0, 0,
];

/// The order of the prime-order subgroup.
pub open spec fn group_order() -> nat {
    0x1000000000000000000000000000000014def9dea2f79cd65812631a5cf5d3ednat
}

/// The prime of the field that the curve is defined over.
pub open spec fn field_prime() -> nat {
    0x7fffffffffffffffffffffffffffffffffffffffffffffffffffffffffffffednat
}

/// Do these bytes spell a scalar below the group order?
pub open spec fn canonical_scalar(b: Seq<u8>) -> bool {
    bytes::le_nat(b) < group_order()
}

/// The `y`-coordinate of a compressed point: its bytes without the sign bit.
pub open spec fn y_coordinate(b: Seq<u8>) -> nat {
    bytes::le_nat(b.update(31, b[31] & 0x7f))
}

/// Is the `y`-coordinate of the compressed point reduced?
pub open spec fn canonical_point(b: Seq<u8>) -> bool {
    y_coordinate(b) < field_prime()
}

pub proof fn lemma_order_bytes()
    ensures
        bytes::le_nat(ED25519_ORDER@) == group_order(),
{
    reveal_with_fuel(bytes::le_nat, 33);
    assert(ED25519_ORDER@.len() == 32);
}

pub proof fn lemma_prime_bytes()
    ensures
        bytes::le_nat(ED25519_FIELD_PRIME@) == field_prime(),
{
    reveal_with_fuel(bytes::le_nat, 33);
    assert(ED25519_FIELD_PRIME@.len() == 32);
}

/// Compressed encoding of `n·G`, as `EdwardsPoint::mul_base` and `compress` compute it.
pub uninterp spec fn base_point(n: nat) -> Seq<u8>;

/// Compressed encoding of the sum of two points, given by their compressed encodings.
pub uninterp spec fn point_sum(p: Seq<u8>, q: Seq<u8>) -> Seq<u8>;

/// The point that `CompressedEdwardsY::decompress` reads from 32 bytes, compressed again;
/// `None` where the bytes are not a point.
pub uninterp spec fn decoded_point(b: Seq<u8>) -> Option<Seq<u8>>;

/// `s·G` is this point, and no other scalar's is.
pub open spec fn opens(s: nat, point: Seq<u8>) -> bool {
    &&& base_point(s) == point
    &&& forall|n: nat| n < group_order() && #[trigger] base_point(n) == point ==> n == s
}

/// The spend key that two halves make: their sum.
pub open spec fn joint_key(s: nat, t: nat) -> nat {
    (s + t) % group_order()
}

/// The joint key is the same whichever side forms it.
pub proof fn law_joint_key_is_symmetric(s_a: nat, s_b: nat)
    ensures
        joint_key(s_a, s_b) == joint_key(s_b, s_a),
{
}

/// Are these bytes what compressing some curve point gives?
pub open spec fn is_point(b: Seq<u8>) -> bool {
    b.len() == 32 && decoded_point(b) == Some(b)
}

/// An integer modulo the group order, in its unique 32-byte little-endian encoding.
#[derive(Clone, Copy, Debug, PartialEq, Eq)]
pub struct Scalar {
    bytes: [u8; 32],
}

impl View for Scalar {
    type V = nat;

    closed spec fn view(&self) -> nat {
        bytes::le_nat(self.bytes@)
    }
}

impl Scalar {
    #[verifier::type_invariant]
    closed spec fn reduced(self) -> bool {
        canonical_scalar(self.bytes@)
    }

    /// The encoding of the scalar.
    pub closed spec fn encoding(self) -> Seq<u8> {
        self.bytes@
    }

    /// A scalar is its value: the encoding is the 32 bytes that spell it, and two scalars with one
    /// value are one scalar.
    pub proof fn law_scalar_is_its_value(self, other: Scalar)
        ensures
            self.encoding().len() == 32,
            bytes::le_nat(self.encoding()) == self@,
            self@ == other@ ==> self == other,
    {
        if self@ == other@ {
            bytes::lemma_le_nat_injective(self.bytes@, other.bytes@);
            assert(self.bytes =~= other.bytes);
        }
    }

    /// Read a scalar from its canonical encoding; any other encoding is refused.
    pub fn from_canonical_bytes(b: [u8; 32]) -> (r: Option<Scalar>)
        ensures
            r is Some <==> canonical_scalar(b@),
            r matches Some(s) ==> s.encoding() == b@ && s@ == bytes::le_nat(b@),
    {
        proof {
            lemma_order_bytes();
        }
        if bytes::lt_le(&b, &ED25519_ORDER) {
            Some(Scalar { bytes: b })
        } else {
            None
        }
    }

    /// The 32-byte little-endian encoding.
    pub fn to_bytes(&self) -> (b: [u8; 32])
        ensures
            b@ == self.encoding(),
            bytes::le_nat(b@) == self@,
            canonical_scalar(b@),
    {
        proof {
            use_type_invariant(self);
        }
        self.bytes
    }

    /// Reduce a 512-bit little-endian number modulo the group order.
    ///
    /// `Scalar::from_bytes_mod_order_wide` of `curve25519-dalek` documents exactly this
    /// reduction.
    #[verifier::external_body]
    fn reduce_wide(wide: &[u8; 64]) -> (s: Scalar)
        ensures
            s@ == bytes::le_nat(wide@) % group_order(),
    {
        let reduced = curve25519_dalek::scalar::Scalar::from_bytes_mod_order_wide(wide);
        Scalar { bytes: reduced.to_bytes() }
    }

    /// Reduce a 512-bit little-endian number modulo the group order.
    pub fn from_wide(wide: &[u8; 64]) -> (s: Scalar)
        ensures
            s@ == bytes::le_nat(wide@) % group_order(),
    {
        Scalar::reduce_wide(wide)
    }

    /// The sum modulo the group order: `+` on `curve25519-dalek` scalars, whose documented
    /// arithmetic is that of integers modulo the group order.
    #[verifier::external_body]
    fn sum(&self, other: &Scalar) -> (s: Scalar)
        ensures
            s@ == (self@ + other@) % group_order(),
    {
        let a = curve25519_dalek::scalar::Scalar::from_bytes_mod_order(self.bytes);
        let b = curve25519_dalek::scalar::Scalar::from_bytes_mod_order(other.bytes);
        Scalar { bytes: (a + b).to_bytes() }
    }

    /// The sum modulo the group order.
    pub fn plus(&self, other: &Scalar) -> (s: Scalar)
        ensures
            s@ == (self@ + other@) % group_order(),
            s@ < group_order(),
    {
        let s = self.sum(other);
        proof {
            use_type_invariant(&s);
        }
        s
    }
}

/// A point of the curve, in its canonical compressed encoding.
#[derive(Clone, Copy, Debug, PartialEq, Eq)]
pub struct Point {
    bytes: [u8; 32],
}

impl View for Point {
    type V = Seq<u8>;

    closed spec fn view(&self) -> Seq<u8> {
        self.bytes@
    }
}

impl Point {
    #[verifier::type_invariant]
    closed spec fn on_curve(self) -> bool {
        is_point(self.bytes@)
    }

    /// A point is its encoding: two points with one encoding are one point.
    pub proof fn law_point_is_its_encoding(self, other: Point)
        ensures
            self@ == other@ ==> self == other,
    {
        if self@ == other@ {
            assert(self.bytes =~= other.bytes);
        }
    }

    /// `s·G`: `EdwardsPoint::mul_base`, then `compress`.
    ///
    /// Claimed of the two: the result depends on the scalar alone, it is a canonical encoding,
    /// and, because the order of `G` is the prime [`group_order`], different scalars give
    /// different points and only zero gives the identity.
    #[verifier::external_body]
    fn base_multiple(s: &Scalar) -> (p: Point)
        ensures
            opens(s@, p@),
            is_point(p@),
            canonical_point(p@),
            p@ == ED25519_IDENTITY@ <==> s@ == 0,
    {
        let scalar = curve25519_dalek::scalar::Scalar::from_bytes_mod_order(s.bytes);
        Point { bytes: EdwardsPoint::mul_base(&scalar).compress().to_bytes() }
    }

    /// `s·G`. Different scalars give different points, and only zero gives the identity.
    pub fn mul_base(s: &Scalar) -> (p: Point)
        ensures
            s@ < group_order(),
            opens(s@, p@),
            is_point(p@),
            canonical_point(p@),
            p@ == ED25519_IDENTITY@ <==> s@ == 0,
    {
        proof {
            use_type_invariant(s);
        }
        Point::base_multiple(s)
    }

    /// The sum of two points: `+` on `EdwardsPoint`.
    ///
    /// Claimed: the sum depends on the two points alone, and on multiples of `G` it adds the
    /// factors modulo the group order.
    #[verifier::external_body]
    fn sum(&self, other: &Point) -> (p: Point)
        ensures
            p@ == point_sum(self@, other@),
            is_point(p@),
            forall|a: nat, b: nat|
                a < group_order() && b < group_order() && self@ == #[trigger] base_point(a)
                    && other@ == #[trigger] base_point(b) ==> p@ == base_point(
                    (a + b) % group_order(),
                ),
    {
        let p = CompressedEdwardsY(self.bytes).decompress().unwrap();
        let q = CompressedEdwardsY(other.bytes).decompress().unwrap();
        Point { bytes: (p + q).compress().to_bytes() }
    }

    /// The sum of two points; on multiples of `G` it adds the factors.
    pub fn plus(&self, other: &Point) -> (p: Point)
        ensures
            p@ == point_sum(self@, other@),
            is_point(p@),
            forall|a: nat, b: nat|
                a < group_order() && b < group_order() && self@ == #[trigger] base_point(a)
                    && other@ == #[trigger] base_point(b) ==> p@ == base_point(
                    (a + b) % group_order(),
                ),
    {
        self.sum(other)
    }

    /// Read a point from a compressed encoding: `CompressedEdwardsY::decompress`. The result
    /// is kept in its canonical encoding.
    #[verifier::external_body]
    fn decode(b: &[u8; 32]) -> (r: Option<Point>)
        ensures
            r matches Some(p) ==> decoded_point(b@) == Some(p@) && is_point(p@),
            r is None ==> decoded_point(b@) is None,
    {
        let point = CompressedEdwardsY(*b).decompress()?;
        Some(Point { bytes: point.compress().to_bytes() })
    }

    /// Read a point from a compressed encoding, `None` where the bytes are not a point.
    pub fn decompress(b: &[u8; 32]) -> (r: Option<Point>)
        ensures
            r matches Some(p) ==> decoded_point(b@) == Some(p@) && is_point(p@),
            r is None <==> decoded_point(b@) is None,
    {
        Point::decode(b)
    }

    /// The canonical compressed encoding.
    pub fn to_bytes(&self) -> (b: [u8; 32])
        ensures
            b@ == self@,
            is_point(b@),
    {
        proof {
            use_type_invariant(self);
        }
        self.bytes
    }

    /// Are these the same point?
    pub fn same(&self, other: &Point) -> (r: bool)
        ensures
            r == (self@ == other@),
            r == (*self == *other),
    {
        bytes::same32(&self.bytes, &other.bytes)
    }
}

/// The operating system gave no random bytes.
#[derive(Clone, Copy, Debug, PartialEq, Eq)]
pub struct RngUnavailable;

/// The error of `getrandom`, opaque here.
#[verifier::external_type_specification]
#[verifier::external_body]
pub struct ExGetrandomError(getrandom::Error);

/// `getrandom::fill` overwrites a buffer with bytes from the operating system, and leaves an empty
/// one alone. Nothing is claimed of the bytes, nor of whether a buffer that is not empty is
/// filled.
pub assume_specification[ getrandom::fill ](dest: &mut [u8]) -> (r: Result<(), getrandom::Error>)
    ensures
        final(dest)@.len() == old(dest)@.len(),
        old(dest)@.len() == 0 ==> r is Ok,
;

/// A uniformly random scalar from operating-system entropy: 64 random bytes reduced modulo the
/// group order, which avoids the bias of reducing only 32. It fails only where the operating
/// system gave no bytes.
pub fn random_scalar() -> (r: Result<Scalar, RngUnavailable>)
    ensures
        exists|buffer: &mut [u8], filled: Result<(), getrandom::Error>|
            {
                &&& (*buffer)@.len() == 64
                &&& #[trigger] call_ensures(getrandom::fill, (buffer,), filled)
                &&& r is Ok <==> filled is Ok
                &&& r matches Ok(s) ==> s@ == bytes::le_nat((*final(buffer))@) % group_order()
            },
        r matches Ok(s) ==> s@ < group_order(),
{
    let mut wide = [0u8; 64];
    match getrandom::fill(&mut wide) {
        Ok(()) => {
            let s = Scalar::from_wide(&wide);
            proof {
                use_type_invariant(&s);
            }
            Ok(s)
        },
        Err(_) => Err(RngUnavailable),
    }
}

/// The joint key is the sum of the two halves modulo the order of the group, which is
/// `2^252 + 27742317777372353535851937790883648493`; and bytes are a canonical scalar exactly where
/// they spell a number below that.
pub proof fn law_joint_keys_are_sums(s: nat, t: nat, b: Seq<u8>)
    ensures
        joint_key(s, t) == (s + t)
            % 0x1000000000000000000000000000000014def9dea2f79cd65812631a5cf5d3ednat,
        canonical_scalar(b) <==> bytes::le_nat(b)
            < 0x1000000000000000000000000000000014def9dea2f79cd65812631a5cf5d3ednat,
        group_order() == 0x1000000000000000000000000000000000000000000000000000000000000000nat
            + 27742317777372353535851937790883648493nat,
{
}

} // verus!
