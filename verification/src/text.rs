//! Text building: hexadecimal and decimal spellings, concatenation.
use vstd::prelude::*;

verus! {

/// `String::push` of the standard library appends one character.
pub assume_specification[ String::push ](s: &mut String, c: char)
    ensures
        final(s)@ == old(s)@.push(c),
;

/// The lower-case digit for a value below 16.
pub open spec fn digit(v: int) -> char {
    if v < 10 {
        (v + 48) as char
    } else {
        (v + 87) as char
    }
}

/// Two hexadecimal digits per byte, the high half first.
pub open spec fn hex_text(b: Seq<u8>) -> Seq<char>
    decreases b.len(),
{
    if b.len() == 0 {
        Seq::empty()
    } else {
        hex_text(b.drop_last()).push(digit(b.last() as int / 16)).push(digit(b.last() as int % 16))
    }
}

/// The decimal spelling of `n`, without leading zeros.
pub open spec fn decimal(n: nat) -> Seq<char>
    decreases n,
{
    if n < 10 {
        seq![digit(n as int)]
    } else {
        decimal(n / 10).push(digit((n % 10) as int))
    }
}

/// The decimal spelling of a signed number.
pub open spec fn signed_decimal(v: int) -> Seq<char> {
    if v < 0 {
        seq!['-'] + decimal((-v) as nat)
    } else {
        decimal(v as nat)
    }
}

fn digit_char(v: u8) -> (c: char)
    requires
        v < 16,
    ensures
        c == digit(v as int),
{
    if v < 10 {
        (v + 48) as char
    } else {
        (v + 87) as char
    }
}

/// The 64 hexadecimal digits of a 32-byte value.
pub fn hex32(b: &[u8; 32]) -> (s: String)
    ensures
        s@ == hex_text(b@),
{
    let mut s = String::new();
    let mut i: usize = 0;
    assert(b@.take(0) =~= Seq::<u8>::empty());
    while i < 32
        invariant
            i <= 32,
            s@ == hex_text(b@.take(i as int)),
        decreases 32 - i,
    {
        let ghost before = b@.take(i as int);
        assert(b@.take(i + 1).drop_last() =~= before);
        s.push(digit_char(b[i] / 16));
        s.push(digit_char(b[i] % 16));
        i = i + 1;
    }
    assert(b@.take(32) =~= b@);
    s
}

/// Append the decimal spelling of `n` to `s`.
pub fn push_decimal(s: &mut String, n: u64)
    ensures
        final(s)@ == old(s)@ + decimal(n as nat),
    decreases n,
{
    if n >= 10 {
        push_decimal(s, n / 10);
    }
    s.push(digit_char((n % 10) as u8));
    assert(s@ =~= old(s)@ + decimal(n as nat));
}

/// Append the decimal spelling of a signed number to `s`.
pub fn push_signed(s: &mut String, v: i64)
    ensures
        final(s)@ == old(s)@ + signed_decimal(v as int),
{
    if v < 0 {
        s.push('-');
        let magnitude: u64 = (-(v as i128)) as u64;
        push_decimal(s, magnitude);
        assert(s@ =~= old(s)@ + signed_decimal(v as int));
    } else {
        push_decimal(s, v as u64);
    }
}

/// The concatenation of two texts.
pub fn concat(a: &str, b: &str) -> (s: String)
    ensures
        s@ == a@ + b@,
{
    let mut s = a.to_owned();
    s.append(b);
    s
}

/// The number that decimal digits spell, the first of them counting most.
pub open spec fn spelled(digits: Seq<char>) -> int
    decreases digits.len(),
{
    if digits.len() == 0 {
        0
    } else {
        10 * spelled(digits.drop_last()) + (digits.last() as int - '0' as int)
    }
}

/// A number's decimal spelling spells the number, in decimal digits alone, and without a leading
/// zero unless it is zero.
pub proof fn law_decimal_spells_the_number(n: nat)
    ensures
        spelled(decimal(n)) == n,
        decimal(n).len() >= 1,
        forall|i: int| 0 <= i < decimal(n).len() ==> '0' <= #[trigger] decimal(n)[i] <= '9',
        n > 0 ==> decimal(n)[0] != '0',
    decreases n,
{
    let all = decimal(n);
    if n < 10 {
        assert(all.drop_last() =~= Seq::<char>::empty());
        assert(spelled(Seq::<char>::empty()) == 0);
    } else {
        law_decimal_spells_the_number(n / 10);
        assert(all.drop_last() =~= decimal(n / 10));
        assert forall|i: int| 0 <= i < all.len() implies '0' <= #[trigger] all[i] <= '9' by {
            if i < all.len() - 1 {
                assert(all[i] == decimal(n / 10)[i]);
            }
        }
        assert(all[0] == decimal(n / 10)[0]);
    }
}

/// A signed number is spelled by its magnitude, behind a minus sign where it is negative.
pub proof fn law_signed_decimal_spells_the_number(v: int)
    ensures
        v >= 0 ==> spelled(signed_decimal(v)) == v,
        v >= 0 ==> signed_decimal(v)[0] != '-',
        v < 0 ==> signed_decimal(v)[0] == '-',
        v < 0 ==> spelled(signed_decimal(v).drop_first()) == -v,
{
    if v >= 0 {
        law_decimal_spells_the_number(v as nat);
    } else {
        law_decimal_spells_the_number((-v) as nat);
        assert(signed_decimal(v).drop_first() =~= decimal((-v) as nat));
    }
}

/// The value of a hexadecimal digit.
pub open spec fn nibble(c: char) -> int {
    if '0' <= c && c <= '9' {
        c as int - '0' as int
    } else {
        c as int - 'a' as int + 10
    }
}

/// Bytes are spelled by two lower-case hexadecimal digits each, in their order, the high half
/// first.
pub proof fn law_hex_spells_the_bytes(b: Seq<u8>, i: int)
    requires
        0 <= i < b.len(),
    ensures
        hex_text(b).len() == 2 * b.len(),
        16 * nibble(hex_text(b)[2 * i]) + nibble(hex_text(b)[2 * i + 1]) == b[i],
        0 <= nibble(hex_text(b)[2 * i]) < 16,
        0 <= nibble(hex_text(b)[2 * i + 1]) < 16,
        '0' <= hex_text(b)[2 * i] <= '9' || 'a' <= hex_text(b)[2 * i] <= 'f',
        '0' <= hex_text(b)[2 * i + 1] <= '9' || 'a' <= hex_text(b)[2 * i + 1] <= 'f',
    decreases b.len(),
{
    lemma_hex_len(b);
    lemma_hex_len(b.drop_last());
    if i < b.len() - 1 {
        law_hex_spells_the_bytes(b.drop_last(), i);
        assert(hex_text(b)[2 * i] == hex_text(b.drop_last())[2 * i]);
        assert(hex_text(b)[2 * i + 1] == hex_text(b.drop_last())[2 * i + 1]);
    }
}

proof fn lemma_hex_len(b: Seq<u8>)
    ensures
        hex_text(b).len() == 2 * b.len(),
    decreases b.len(),
{
    if b.len() > 0 {
        lemma_hex_len(b.drop_last());
    }
}

} // verus!
