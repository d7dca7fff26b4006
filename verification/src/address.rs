//! Radio addresses: five bytes, written as hexadecimal text.
use vstd::prelude::*;

use crate::error::{CliError, ErrorView};
use crate::number::{
    bounded_value, bytes_hex, digit_char, is_digit_string, lemma_bytes_hex, lemma_digit,
    digit_value, parse_bounded, positional, unsigned_value, without_sign, write_bytes,
};
use crate::text::{characters, concat3};

verus! {

/// The largest value of a radio address.
pub const ADDRESS_MAX: u64 = 0xFF_FFFF_FFFF;

/// `s` without any `0x`, taken out from left to right.
pub open spec fn without_0x(s: Seq<char>) -> Seq<char>
    decreases s.len(),
{
    if s.len() < 2 {
        s
    } else if s[0] == '0' && s[1] == 'x' {
        without_0x(s.skip(2))
    } else {
        seq![s[0]] + without_0x(s.skip(1))
    }
}

fn remove_0x(s: &[char]) -> (r: Vec<char>)
    ensures
        r@ == without_0x(s@),
{
    let mut out: Vec<char> = Vec::new();
    let mut i: usize = 0;
    assert(s@.skip(0) =~= s@);
    assert(out@ + without_0x(s@.skip(0)) =~= without_0x(s@));
    while i < s.len()
        invariant
            i <= s.len(),
            out@ + without_0x(s@.skip(i as int)) == without_0x(s@),
        decreases s.len() - i,
    {
        let ghost rest = s@.skip(i as int);
        if i + 1 < s.len() && s[i] == '0' && s[i + 1] == 'x' {
            assert(rest.skip(2) =~= s@.skip(i + 2));
            i += 2;
        } else {
            let ghost before = out@;
            out.push(s[i]);
            assert(rest.skip(1) =~= s@.skip(i + 1));
            proof {
                if rest.len() < 2 {
                    assert(rest =~= seq![s@[i as int]]);
                    assert(without_0x(s@.skip(i + 1)) =~= Seq::empty());
                }
            }
            assert(out@ + without_0x(s@.skip(i + 1)) =~= before + without_0x(rest));
            i += 1;
        }
    }
    assert(s@.skip(i as int) =~= Seq::empty());
    assert(out@ =~= without_0x(s@));
    out
}

/// The number that `address` writes in hexadecimal, `0x` anywhere in it left
/// out, if it fits into five bytes.
pub open spec fn address_value(address: Seq<char>) -> Option<nat> {
    bounded_value(without_0x(address), 16, ADDRESS_MAX as nat)
}

/// The value of five bytes, the most significant one first.
pub open spec fn big_endian(b: Seq<u8>) -> nat {
    ((((b[0] as nat) * 256 + b[1] as nat) * 256 + b[2] as nat) * 256 + b[3] as nat) * 256
        + b[4] as nat
}

/// The message for an address that cannot be decoded.
pub open spec fn bad_address(address: Seq<char>) -> Seq<char> {
    "address '"@ + address
        + "' is not a valid 5-byte hexadecimal value (e.g. E7E7E7E7E7)"@
}

/// The five bytes of a number that fits into them, the most significant one first.
pub fn address_bytes(value: u64) -> (r: [u8; 5])
    requires
        value <= ADDRESS_MAX,
    ensures
        big_endian(r@) == value,
{
    let b4 = (value % 256) as u8;
    let v3 = value / 256;
    let b3 = (v3 % 256) as u8;
    let v2 = v3 / 256;
    let b2 = (v2 % 256) as u8;
    let v1 = v2 / 256;
    let b1 = (v1 % 256) as u8;
    let b0 = (v1 / 256) as u8;
    [b0, b1, b2, b3, b4]
}

/// Parses an address without a message for the failure.
pub fn parse_address(address: &str) -> (r: Option<[u8; 5]>)
    ensures
        r is Some <==> address_value(address@) is Some,
        r matches Some(a) ==> Some(big_endian(a@)) == address_value(address@),
{
    let chars = characters(address);
    let digits = remove_0x(chars.as_slice());
    match parse_bounded(digits.as_slice(), 16, ADDRESS_MAX) {
        Some(value) => Some(address_bytes(value)),
        None => None,
    }
}

/// Decodes a five-byte radio address from hexadecimal text.
pub fn decode_address(address: &str) -> (r: Result<[u8; 5], CliError>)
    ensures
        r is Ok <==> address_value(address@) is Some,
        r matches Ok(a) ==> Some(big_endian(a@)) == address_value(address@),
        r matches Err(e) ==> e@ == ErrorView::InvalidValue(bad_address(address@)),
{
    match parse_address(address) {
        Some(a) => Ok(a),
        None => Err(
            CliError::InvalidValue(
                concat3(
                    "address '",
                    address,
                    "' is not a valid 5-byte hexadecimal value (e.g. E7E7E7E7E7)",
                ),
            ),
        ),
    }
}

/// Writes an address as ten upper case hexadecimal digits.
pub fn encode_address(address: &[u8; 5]) -> (r: String)
    ensures
        r@ == bytes_hex(address@, true),
{
    write_bytes(address, true)
}

// ---- Laws ------------------------------------------------------------------

proof fn lemma_no_x(s: Seq<char>)
    requires
        forall|i: int| 0 <= i < s.len() ==> s[i] != 'x',
    ensures
        without_0x(s) == s,
    decreases s.len(),
{
    if s.len() >= 2 {
        assert(s.skip(1)[0] == s[1]);
        assert forall|i: int| 0 <= i < s.skip(1).len() implies s.skip(1)[i] != 'x' by {
            assert(s.skip(1)[i] == s[i + 1]);
        }
        lemma_no_x(s.skip(1));
        assert(seq![s[0]] + s.skip(1) =~= s);
    }
}

proof fn lemma_bytes_value(bytes: Seq<u8>, upper: bool)
    requires
        bytes.len() > 0,
    ensures
        positional(bytes_hex(bytes, upper), 16) == positional(
            bytes_hex(bytes.drop_last(), upper),
            16,
        ) * 256 + bytes.last(),
{
    let s = bytes_hex(bytes, upper);
    let b = bytes.last();
    reveal_with_fuel(positional, 3);
    lemma_digit(b as int / 16, upper);
    lemma_digit(b as int % 16, upper);
    assert(s.last() == digit_char(b as int % 16, upper));
    assert(s.drop_last().last() == digit_char(b as int / 16, upper));
    assert(s.drop_last().drop_last() =~= bytes_hex(bytes.drop_last(), upper));
}

/// Decoding an encoded address gives the address back.
pub proof fn decoding_undoes_encoding(address: [u8; 5])
    ensures
        address_value(bytes_hex(address@, true)) == Some(big_endian(address@)),
{
    let b = address@;
    let s = bytes_hex(b, true);
    lemma_bytes_hex(b, true);
    lemma_no_x(s);
    lemma_bytes_value(b, true);
    let b4 = b.drop_last();
    lemma_bytes_value(b4, true);
    let b3 = b4.drop_last();
    lemma_bytes_value(b3, true);
    let b2 = b3.drop_last();
    lemma_bytes_value(b2, true);
    let b1 = b2.drop_last();
    lemma_bytes_value(b1, true);
    assert(bytes_hex(b1.drop_last(), true) =~= Seq::empty());
    assert(without_sign(s) == s);
    assert(is_digit_string(s, 16));
}

/// Different addresses have different values, so the decoded bytes are the only
/// ones that the text can mean.
pub proof fn address_bytes_are_unique(a: [u8; 5], b: [u8; 5])
    requires
        big_endian(a@) == big_endian(b@),
    ensures
        a@ == b@,
{
    assert(a@ =~= b@);
}

/// Taking out `0x` goes piece by piece: an occurrence vanishes, what stands
/// before and behind it is treated alone, and a text without one stays.
pub proof fn every_0x_is_taken_out(a: Seq<char>, b: Seq<char>)
    ensures
        without_0x(a + seq!['0', 'x'] + b) == without_0x(a) + without_0x(b),
        (forall|i: int| 0 <= i < a.len() - 1 && a[i] == '0' ==> #[trigger] a[i + 1] != 'x')
            ==> without_0x(a) == a,
    decreases a.len(),
{
    let whole = a + seq!['0', 'x'] + b;
    if a.len() == 0 {
        assert(whole.skip(2) =~= b);
        assert(without_0x(a) + without_0x(b) =~= without_0x(b));
    } else if a.len() >= 2 && a[0] == '0' && a[1] == 'x' {
        assert(whole.skip(2) =~= a.skip(2) + seq!['0', 'x'] + b);
        every_0x_is_taken_out(a.skip(2), b);
        assert(a[0int + 1int] == 'x');
    } else {
        let rest = a.skip(1);
        assert(whole[0] == a[0]);
        if a.len() == 1 {
            assert(whole[1] == '0');
        } else {
            assert(whole[1] == a[1]);
        }
        assert(whole.skip(1) =~= rest + seq!['0', 'x'] + b);
        every_0x_is_taken_out(rest, b);
        if forall|i: int| 0 <= i < a.len() - 1 && a[i] == '0' ==> #[trigger] a[i + 1] != 'x' {
            assert forall|i: int| 0 <= i < rest.len() - 1 && rest[i] == '0' implies #[trigger] rest[
                i + 1
            ] != 'x' by {
                assert(rest[i + 1] == a[(i + 1) + 1]);
            }
            assert(without_0x(rest) == rest);
        }
        assert(seq![a[0]] + rest =~= a);
        if a.len() == 1 {
            assert(rest =~= Seq::empty());
            assert(without_0x(rest) =~= Seq::empty());
            assert(without_0x(a) =~= a);
        }
        assert(without_0x(whole) =~= without_0x(a) + without_0x(b));
    }
}

/// A prefix `0x` makes no difference to an address.
pub proof fn prefix_is_ignored(address: Seq<char>)
    ensures
        address_value(seq!['0', 'x'] + address) == address_value(address),
{
    let none = Seq::<char>::empty();
    every_0x_is_taken_out(none, address);
    assert(none + seq!['0', 'x'] + address =~= seq!['0', 'x'] + address);
    assert(without_0x(none) + without_0x(address) =~= without_0x(address));
}

/// Addresses have at most five bytes, and without `x` the text is a hexadecimal
/// number as it stands.
pub proof fn addresses_are_hexadecimal_numbers(address: Seq<char>, value: nat)
    requires
        !address.contains('x'),
    ensures
        address_value(address) == Some(value) <==> unsigned_value(address, 16) == Some(value)
            && value <= 0xFF_FFFF_FFFF,
{
    assert forall|i: int| 0 <= i < address.len() implies address[i] != 'x' by {
        assert(address.contains(address[i]));
    }
    lemma_no_x(address);
}

/// Ten hexadecimal digits are an address, and its five bytes are what the five
/// pairs of digits say, in the same order.
pub proof fn ten_digits_are_five_bytes(address: Seq<char>, bytes: Seq<u8>, i: int)
    requires
        address.len() == 10,
        forall|k: int| 0 <= k < 10 ==> digit_value(#[trigger] address[k]) < 16,
        bytes.len() == 5,
        address_value(address) is None || address_value(address) == Some(big_endian(bytes)),
        0 <= i < 5,
    ensures
        address_value(address) is Some,
        bytes[i] == digit_value(address[2 * i]) * 16 + digit_value(address[2 * i + 1]),
{
    assert forall|k: int| 0 <= k < 10 implies address[k] != 'x' && address[k] != '+' by {
        assert(digit_value(address[k]) < 16);
    }
    lemma_no_x(address);
    assert(is_digit_string(address, 16));
    assert(without_sign(address) == address);
    let p10 = address;
    let p9 = p10.drop_last();
    let p8 = p9.drop_last();
    let p7 = p8.drop_last();
    let p6 = p7.drop_last();
    let p5 = p6.drop_last();
    let p4 = p5.drop_last();
    let p3 = p4.drop_last();
    let p2 = p3.drop_last();
    let p1 = p2.drop_last();
    let p0 = p1.drop_last();
    assert(positional(p0, 16) == 0);
    assert(positional(p1, 16) == digit_value(address[0]));
    assert(positional(p2, 16) == positional(p1, 16) * 16 + digit_value(address[1]));
    assert(positional(p3, 16) == positional(p2, 16) * 16 + digit_value(address[2]));
    assert(positional(p4, 16) == positional(p3, 16) * 16 + digit_value(address[3]));
    assert(positional(p5, 16) == positional(p4, 16) * 16 + digit_value(address[4]));
    assert(positional(p6, 16) == positional(p5, 16) * 16 + digit_value(address[5]));
    assert(positional(p7, 16) == positional(p6, 16) * 16 + digit_value(address[6]));
    assert(positional(p8, 16) == positional(p7, 16) * 16 + digit_value(address[7]));
    assert(positional(p9, 16) == positional(p8, 16) * 16 + digit_value(address[8]));
    assert(positional(p10, 16) == positional(p9, 16) * 16 + digit_value(address[9]));
    assert(digit_value(address[0]) < 16 && digit_value(address[1]) < 16);
    assert(digit_value(address[2]) < 16 && digit_value(address[3]) < 16);
    assert(digit_value(address[4]) < 16 && digit_value(address[5]) < 16);
    assert(digit_value(address[6]) < 16 && digit_value(address[7]) < 16);
    assert(digit_value(address[8]) < 16 && digit_value(address[9]) < 16);
}

}
