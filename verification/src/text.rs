//! Text building blocks: lower-case hex and decimal renderings.

use vstd::prelude::*;

verus! {

/// `String::push` appends one character.
pub assume_specification[ String::push ](s: &mut String, ch: char)
    ensures
        final(s)@ == old(s)@.push(ch),
;

/// The lower-case hex digit of a nibble.
pub open spec fn hex_digit(n: int) -> char {
    if n < 10 {
        (48 + n) as char
    } else {
        (87 + n) as char
    }
}

/// Two lower-case hex digits per byte, most significant nibble first.
pub open spec fn spec_hex_lower(bytes: Seq<u8>) -> Seq<char>
    decreases bytes.len(),
{
    if bytes.len() == 0 {
        Seq::empty()
    } else {
        let b = bytes.last();
        spec_hex_lower(bytes.drop_last()).push(hex_digit((b / 16) as int)).push(hex_digit((b % 16) as int))
    }
}

/// The value of a lower-case hex digit: `0`-`9` count 0 to 9, `a`-`f` count
/// 10 to 15.
pub open spec fn hex_value(c: char) -> int {
    if '0' <= c && c <= '9' {
        c as int - '0' as int
    } else {
        c as int - 'a' as int + 10
    }
}

/// The hex rendering spells each byte: the two characters at `2i` and `2i + 1`
/// are lower-case hex digits whose value, high digit first, is byte `i`.
pub proof fn lemma_hex_lower_spells_bytes(bytes: Seq<u8>)
    ensures
        spec_hex_lower(bytes).len() == 2 * bytes.len(),
        forall|i: int|
            0 <= i < bytes.len() ==> {
                let hi = #[trigger] spec_hex_lower(bytes)[2 * i];
                let lo = spec_hex_lower(bytes)[2 * i + 1];
                &&& ('0' <= hi <= '9' || 'a' <= hi <= 'f')
                &&& ('0' <= lo <= '9' || 'a' <= lo <= 'f')
                &&& 16 * hex_value(hi) + hex_value(lo) == bytes[i]
            },
    decreases bytes.len(),
{
    if bytes.len() > 0 {
        let prefix = bytes.drop_last();
        lemma_hex_lower_spells_bytes(prefix);
        let b = bytes.last();
        let out = spec_hex_lower(bytes);
        let n = bytes.len() - 1;
        let hi = (b / 16) as int;
        let lo = (b % 16) as int;
        assert(out[2 * n] == hex_digit(hi));
        assert(out[2 * n + 1] == hex_digit(lo));
        assert(hex_value(hex_digit(hi)) == hi);
        assert(hex_value(hex_digit(lo)) == lo);
        assert forall|i: int| 0 <= i < bytes.len() implies {
            let hi = #[trigger] spec_hex_lower(bytes)[2 * i];
            let lo = spec_hex_lower(bytes)[2 * i + 1];
            &&& ('0' <= hi <= '9' || 'a' <= hi <= 'f')
            &&& ('0' <= lo <= '9' || 'a' <= lo <= 'f')
            &&& 16 * hex_value(hi) + hex_value(lo) == bytes[i]
        } by {
            if i < n {
                assert(out[2 * i] == spec_hex_lower(prefix)[2 * i]);
                assert(out[2 * i + 1] == spec_hex_lower(prefix)[2 * i + 1]);
                assert(prefix[i] == bytes[i]);
            }
        }
    }
}

fn nibble_char(n: u8) -> (c: char)
    requires
        n < 16,
    ensures
        c == hex_digit(n as int),
{
    if n < 10 {
        (48u8 + n) as char
    } else {
        (87u8 + n) as char
    }
}

/// Renders `bytes` as lower-case hex, two characters per byte.
pub fn hex_lower(bytes: &[u8]) -> (out: String)
    ensures
        out@ == spec_hex_lower(bytes@),
        out@.len() == 2 * bytes@.len(),
        forall|i: int|
            0 <= i < bytes@.len() ==> 16 * hex_value(#[trigger] out@[2 * i]) + hex_value(
                out@[2 * i + 1],
            ) == bytes@[i],
{
    let mut out = String::new();
    let mut i: usize = 0;
    while i < bytes.len()
        invariant
            i <= bytes@.len(),
            out@ == spec_hex_lower(bytes@.take(i as int)),
        decreases bytes@.len() - i,
    {
        let b = bytes[i];
        let hi = b >> 4;
        let lo = b & 0x0f;
        assert((b >> 4) == b / 16 && (b & 0x0f) == b % 16) by (bit_vector);
        out.push(nibble_char(hi));
        out.push(nibble_char(lo));
        assert(bytes@.take(i + 1).drop_last() =~= bytes@.take(i as int));
        i = i + 1;
    }
    assert(bytes@.take(bytes@.len() as int) =~= bytes@);
    proof {
        lemma_hex_lower_spells_bytes(bytes@);
    }
    out
}

/// The decimal digits of `n` as ASCII bytes, most significant first, without
/// leading zeros ("0" for zero).
pub open spec fn decimal_ascii(n: nat) -> Seq<u8>
    decreases n,
{
    if n < 10 {
        seq![(48 + n) as u8]
    } else {
        decimal_ascii(n / 10).push((48 + n % 10) as u8)
    }
}

/// The number that a sequence of ASCII decimal digits spells.
pub open spec fn decimal_value(digits: Seq<u8>) -> int
    decreases digits.len(),
{
    if digits.len() == 0 {
        0
    } else {
        10 * decimal_value(digits.drop_last()) + (digits.last() - 48)
    }
}

/// The decimal rendering of `n` is a non-empty run of the digits `0`-`9`,
/// without a leading zero unless it is `0` itself, that spells `n`.
pub proof fn lemma_decimal_ascii_spells(n: nat)
    ensures
        decimal_ascii(n).len() >= 1,
        forall|i: int| 0 <= i < decimal_ascii(n).len() ==> 48 <= #[trigger] decimal_ascii(n)[i] <= 57,
        decimal_ascii(n).len() > 1 ==> decimal_ascii(n)[0] != 48,
        decimal_value(decimal_ascii(n)) == n,
    decreases n,
{
    let d = decimal_ascii(n);
    if n >= 10 {
        let q = n / 10;
        lemma_decimal_ascii_spells(q);
        assert(d.drop_last() =~= decimal_ascii(q));
        assert(d.last() == 48 + n % 10);
        assert(n == 10 * q + n % 10);
        assert forall|i: int| 0 <= i < d.len() implies 48 <= #[trigger] d[i] <= 57 by {
            if i < d.len() - 1 {
                assert(d[i] == decimal_ascii(q)[i]);
            }
        }
        if q < 10 {
            assert(decimal_ascii(q)[0] == 48 + q);
        } else {
            lemma_decimal_ascii_spells(q / 10);
            assert(decimal_ascii(q).len() == decimal_ascii(q / 10).len() + 1);
        }
        assert(d[0] == decimal_ascii(q)[0]);
        assert(decimal_value(d) == 10 * decimal_value(d.drop_last()) + (d.last() - 48));
    } else {
        assert(d[0] == 48 + n);
        assert(d.drop_last() =~= Seq::<u8>::empty());
        assert(decimal_value(d) == 10 * decimal_value(d.drop_last()) + (d.last() - 48));
    }
}

/// The decimal digits of `n` as characters.
pub open spec fn decimal_text(n: nat) -> Seq<char> {
    decimal_ascii(n).map_values(|b: u8| b as char)
}

/// Appends the decimal digits of `n` to `out`.
pub fn push_decimal_ascii(out: &mut Vec<u8>, n: u64)
    ensures
        final(out)@ == old(out)@ + decimal_ascii(n as nat),
    decreases n,
{
    if n >= 10 {
        push_decimal_ascii(out, n / 10);
    }
    out.push(48u8 + (n % 10) as u8);
}

/// Appends the decimal digits of `n` to `out`.
pub fn push_decimal_text(out: &mut String, n: u64)
    ensures
        final(out)@ == old(out)@ + decimal_text(n as nat),
    decreases n,
{
    if n >= 10 {
        push_decimal_text(out, n / 10);
    }
    let d: u8 = 48u8 + (n % 10) as u8;
    out.push(d as char);
    proof {
        let q = (n / 10) as nat;
        if n >= 10 {
            assert(decimal_ascii(n as nat) == decimal_ascii(q).push(d));
            assert(decimal_text(n as nat) =~= decimal_text(q).push(d as char));
        } else {
            assert(decimal_text(n as nat) =~= seq![d as char]);
        }
    }
}

/// Appends the bytes of `src` to `out`.
pub fn push_bytes(out: &mut Vec<u8>, src: &[u8])
    ensures
        final(out)@ == old(out)@ + src@,
{
    let mut i: usize = 0;
    while i < src.len()
        invariant
            i <= src@.len(),
            out@ == old(out)@ + src@.take(i as int),
        decreases src@.len() - i,
    {
        out.push(src[i]);
        assert(src@.take(i + 1) =~= src@.take(i as int).push(src@[i as int]));
        i = i + 1;
    }
    assert(src@.take(src@.len() as int) =~= src@);
}

} // verus!
