//! Numbers in text: positional notation in base 10 and base 16.
use vstd::prelude::*;

verus! {

/// The character that stands for the digit `d`, which is below 16.
pub open spec fn digit_char(d: int, upper: bool) -> char {
    if d < 10 {
        (48 + d) as char
    } else if upper {
        (55 + d) as char
    } else {
        (87 + d) as char
    }
}

fn digit_text(d: u8, upper: bool) -> (r: &'static str)
    requires
        d < 16,
    ensures
        r@ == seq![digit_char(d as int, upper)],
{
    proof {
        reveal_strlit("0");
        reveal_strlit("1");
        reveal_strlit("2");
        reveal_strlit("3");
        reveal_strlit("4");
        reveal_strlit("5");
        reveal_strlit("6");
        reveal_strlit("7");
        reveal_strlit("8");
        reveal_strlit("9");
        reveal_strlit("A");
        reveal_strlit("B");
        reveal_strlit("C");
        reveal_strlit("D");
        reveal_strlit("E");
        reveal_strlit("F");
        reveal_strlit("a");
        reveal_strlit("b");
        reveal_strlit("c");
        reveal_strlit("d");
        reveal_strlit("e");
        reveal_strlit("f");
    }
    match (d, upper) {
        (0, _) => "0",
        (1, _) => "1",
        (2, _) => "2",
        (3, _) => "3",
        (4, _) => "4",
        (5, _) => "5",
        (6, _) => "6",
        (7, _) => "7",
        (8, _) => "8",
        (9, _) => "9",
        (10, true) => "A",
        (11, true) => "B",
        (12, true) => "C",
        (13, true) => "D",
        (14, true) => "E",
        (15, true) => "F",
        (10, false) => "a",
        (11, false) => "b",
        (12, false) => "c",
        (13, false) => "d",
        (14, false) => "e",
        _ => "f",
    }
}

/// `n` written in `base` without leading zeros.
pub open spec fn digits(n: nat, base: nat, upper: bool) -> Seq<char>
    decreases n,
{
    if base < 2 || n < base {
        seq![digit_char(n as int, upper)]
    } else {
        proof {
            assert(n / base < n) by (nonlinear_arith)
                requires
                    n >= base,
                    base >= 2,
            ;
        }
        digits(n / base, base, upper).push(digit_char((n % base) as int, upper))
    }
}

fn write_number(n: u64, base: u64, upper: bool) -> (r: String)
    requires
        2 <= base <= 16,
    ensures
        r@ == digits(n as nat, base as nat, upper),
    decreases n,
{
    if n < base {
        digit_text(n as u8, upper).to_owned()
    } else {
        assert(n / base < n) by (nonlinear_arith)
            requires
                n >= base,
                base >= 2,
        ;
        let high = write_number(n / base, base, upper);
        let r = high.concat(digit_text((n % base) as u8, upper));
        assert(r@ =~= digits(n as nat, base as nat, upper));
        r
    }
}

/// `n` in decimal.
pub open spec fn decimal_of(n: nat) -> Seq<char> {
    digits(n, 10, false)
}

/// Writes `n` in decimal.
pub fn decimal(n: u64) -> (r: String)
    ensures
        r@ == decimal_of(n as nat),
{
    write_number(n, 10, false)
}

/// `n` in hexadecimal with lower case letters and without a prefix.
pub open spec fn hex_of(n: nat) -> Seq<char> {
    digits(n, 16, false)
}

/// Writes `n` in hexadecimal with lower case letters.
pub fn hex(n: u64) -> (r: String)
    ensures
        r@ == hex_of(n as nat),
{
    write_number(n, 16, false)
}

/// A byte as exactly two hexadecimal digits.
pub open spec fn byte_hex(b: u8, upper: bool) -> Seq<char> {
    seq![digit_char(b as int / 16, upper), digit_char(b as int % 16, upper)]
}

/// Bytes as two hexadecimal digits each, in order.
pub open spec fn bytes_hex(bytes: Seq<u8>, upper: bool) -> Seq<char>
    decreases bytes.len(),
{
    if bytes.len() == 0 {
        Seq::empty()
    } else {
        bytes_hex(bytes.drop_last(), upper) + byte_hex(bytes.last(), upper)
    }
}

/// Writes bytes as two hexadecimal digits each.
pub fn write_bytes(bytes: &[u8], upper: bool) -> (r: String)
    ensures
        r@ == bytes_hex(bytes@, upper),
{
    let mut out = String::new();
    let mut i: usize = 0;
    while i < bytes.len()
        invariant
            i <= bytes.len(),
            out@ == bytes_hex(bytes@.take(i as int), upper),
        decreases bytes.len() - i,
    {
        let b = bytes[i];
        let ghost before = out@;
        out.append(digit_text(b / 16, upper));
        out.append(digit_text(b % 16, upper));
        assert(bytes@.take(i + 1).drop_last() =~= bytes@.take(i as int));
        assert(out@ =~= before + byte_hex(b, upper));
        i += 1;
    }
    assert(bytes@.take(bytes@.len() as int) =~= bytes@);
    out
}

// ---- Parsing ---------------------------------------------------------------

/// The value of a digit character; 99 for a character that is no digit.
pub open spec fn digit_value(c: char) -> nat {
    if '0' <= c <= '9' {
        (c as int - 48) as nat
    } else if 'a' <= c <= 'z' {
        (c as int - 87) as nat
    } else if 'A' <= c <= 'Z' {
        (c as int - 55) as nat
    } else {
        99
    }
}

fn digit(c: char) -> (r: u64)
    ensures
        r == digit_value(c),
{
    if '0' <= c && c <= '9' {
        (c as u64) - 48
    } else if 'a' <= c && c <= 'z' {
        (c as u64) - 87
    } else if 'A' <= c && c <= 'Z' {
        (c as u64) - 55
    } else {
        99
    }
}

/// The value of a digit string.
pub open spec fn positional(s: Seq<char>, base: nat) -> nat
    decreases s.len(),
{
    if s.len() == 0 {
        0
    } else {
        positional(s.drop_last(), base) * base + digit_value(s.last())
    }
}

/// Whether `s` is one digit of `base` or more, and nothing else.
pub open spec fn is_digit_string(s: Seq<char>, base: nat) -> bool {
    s.len() > 0 && forall|i: int| 0 <= i < s.len() ==> digit_value(#[trigger] s[i]) < base
}

/// The digits of a number that may have a plus sign in front.
pub open spec fn without_sign(s: Seq<char>) -> Seq<char> {
    if s.len() > 0 && s[0] == '+' {
        s.skip(1)
    } else {
        s
    }
}

/// The number that `s` writes: an optional plus sign, then digits of `base`.
pub open spec fn unsigned_value(s: Seq<char>, base: nat) -> Option<nat> {
    if is_digit_string(without_sign(s), base) {
        Some(positional(without_sign(s), base))
    } else {
        None
    }
}

/// The number that `s` writes, if it is at most `max`.
pub open spec fn bounded_value(s: Seq<char>, base: nat, max: nat) -> Option<nat> {
    match unsigned_value(s, base) {
        Some(n) => if n <= max {
            Some(n)
        } else {
            None
        },
        None => None,
    }
}

proof fn lemma_positional_grows(s: Seq<char>, i: int, base: nat)
    requires
        0 <= i <= s.len(),
        base >= 1,
    ensures
        positional(s.take(i), base) <= positional(s, base),
    decreases s.len() - i,
{
    if i == s.len() {
        assert(s.take(i) =~= s);
    } else {
        lemma_positional_grows(s, i + 1, base);
        assert(s.take(i + 1).drop_last() =~= s.take(i));
        let p = positional(s.take(i), base);
        assert(p <= p * base) by (nonlinear_arith)
            requires
                base >= 1,
        ;
    }
}

/// Parses an unsigned number in `base` that is at most `max`.
pub fn parse_bounded(s: &[char], base: u64, max: u64) -> (r: Option<u64>)
    requires
        2 <= base <= 36,
    ensures
        r == (match bounded_value(s@, base as nat, max as nat) {
            Some(n) => Some(n as u64),
            None => None,
        }),
{
    let start: usize = if s.len() > 0 && s[0] == '+' {
        1
    } else {
        0
    };
    let ghost d = without_sign(s@);
    assert(d =~= s@.skip(start as int));
    if start == s.len() {
        return None;
    }
    let mut total: u64 = 0;
    let mut i: usize = start;
    assert(d.take(0) =~= Seq::empty());
    while i < s.len()
        invariant
            2 <= base <= 36,
            start <= i <= s.len(),
            start <= 1,
            d == s@.skip(start as int),
            d == without_sign(s@),
            d.len() > 0,
            total == positional(d.take(i - start), base as nat),
            total <= max,
            forall|j: int| 0 <= j < i - start ==> digit_value(#[trigger] d[j]) < base,
        decreases s.len() - i,
    {
        let v = digit(s[i]);
        assert(d[i - start] == s@[i as int]);
        if v >= base {
            return None;
        }
        assert(d.take(i - start + 1).drop_last() =~= d.take(i - start));
        assert(total * base <= 0xffff_ffff_ffff_ffff * 36) by (nonlinear_arith)
            requires
                total <= 0xffff_ffff_ffff_ffffu64,
                base <= 36,
        ;
        let next: u128 = (total as u128) * (base as u128) + (v as u128);
        proof {
            lemma_positional_grows(d, i - start + 1, base as nat);
        }
        if next > max as u128 {
            return None;
        }
        total = next as u64;
        i += 1;
    }
    assert(d.take(i - start) =~= d);
    Some(total)
}

// ---- Laws ------------------------------------------------------------------

/// A written digit reads as its value, is neither `x` nor a sign.
pub proof fn lemma_digit(d: int, upper: bool)
    requires
        0 <= d < 16,
    ensures
        digit_value(digit_char(d, upper)) == d,
        digit_char(d, upper) != 'x',
        digit_char(d, upper) != '+',
{
}

pub proof fn lemma_bytes_hex(bytes: Seq<u8>, upper: bool)
    ensures
        bytes_hex(bytes, upper).len() == 2 * bytes.len(),
        forall|i: int|
            0 <= i < 2 * bytes.len() ==> digit_value(#[trigger] bytes_hex(bytes, upper)[i]) < 16
                && bytes_hex(bytes, upper)[i] != 'x' && bytes_hex(bytes, upper)[i] != '+',
    decreases bytes.len(),
{
    if bytes.len() > 0 {
        lemma_bytes_hex(bytes.drop_last(), upper);
        lemma_digit(bytes.last() as int / 16, upper);
        lemma_digit(bytes.last() as int % 16, upper);
    }
}

/// A written number consists of digits that have its value.
pub proof fn lemma_digits(n: nat, base: nat, upper: bool)
    requires
        2 <= base <= 16,
    ensures
        is_digit_string(digits(n, base, upper), base),
        digits(n, base, upper)[0] != '+',
        positional(digits(n, base, upper), base) == n,
    decreases n,
{
    let s = digits(n, base, upper);
    if n < base {
        lemma_digit(n as int, upper);
        assert(s.drop_last() =~= Seq::empty());
        assert(positional(s.drop_last(), base) * base == 0) by (nonlinear_arith)
            requires
                positional(s.drop_last(), base) == 0,
        ;
    } else {
        assert(n / base < n) by (nonlinear_arith)
            requires
                n >= base,
                base >= 2,
        ;
        assert(n == (n / base) * base + n % base && n % base < base) by (nonlinear_arith)
            requires
                base >= 2,
        ;
        lemma_digits(n / base, base, upper);
        lemma_digit((n % base) as int, upper);
        assert(s.drop_last() =~= digits(n / base, base, upper));
    }
}

/// Reading a written number gives the number back.
pub proof fn reading_undoes_writing(n: nat, base: nat, upper: bool)
    requires
        2 <= base <= 16,
    ensures
        unsigned_value(digits(n, base, upper), base) == Some(n),
{
    lemma_digits(n, base, upper);
}

/// Different byte strings are written differently.
pub proof fn written_bytes_are_unique(a: Seq<u8>, b: Seq<u8>, upper: bool)
    requires
        bytes_hex(a, upper) == bytes_hex(b, upper),
    ensures
        a == b,
    decreases a.len(),
{
    lemma_bytes_hex(a, upper);
    lemma_bytes_hex(b, upper);
    if a.len() > 0 {
        let x = bytes_hex(a, upper);
        let y = bytes_hex(b, upper);
        assert(x.drop_last().drop_last() =~= bytes_hex(a.drop_last(), upper));
        assert(y.drop_last().drop_last() =~= bytes_hex(b.drop_last(), upper));
        written_bytes_are_unique(a.drop_last(), b.drop_last(), upper);
        lemma_digit(a.last() as int / 16, upper);
        lemma_digit(a.last() as int % 16, upper);
        lemma_digit(b.last() as int / 16, upper);
        lemma_digit(b.last() as int % 16, upper);
        assert(x[x.len() - 1] == digit_char(a.last() as int % 16, upper));
        assert(x[x.len() - 2] == digit_char(a.last() as int / 16, upper));
        assert(a =~= b.drop_last().push(b.last()));
        assert(a =~= b);
    } else {
        assert(a =~= b);
    }
}

/// The ten digits and the letters stand for their values, a letter in either
/// case, and no other character is a digit in any base up to 36.
pub proof fn characters_have_their_digit_values(c: char)
    ensures
        '0' <= c <= '9' ==> digit_value(c) == c as int - '0' as int,
        'a' <= c <= 'z' ==> digit_value(c) == c as int - 'a' as int + 10,
        'A' <= c <= 'Z' ==> digit_value(c) == c as int - 'A' as int + 10,
        !('0' <= c <= '9') && !('a' <= c <= 'z') && !('A' <= c <= 'Z') ==> digit_value(c) >= 36,
{
}

/// Digits are written as `0` to `9` and then as letters of the wanted case.
pub proof fn digits_have_their_characters(d: int, upper: bool)
    requires
        0 <= d < 16,
    ensures
        d < 10 ==> '0' <= digit_char(d, upper) <= '9',
        d >= 10 && upper ==> 'A' <= digit_char(d, upper) <= 'F',
        d >= 10 && !upper ==> 'a' <= digit_char(d, upper) <= 'f',
        digit_value(digit_char(d, upper)) == d,
{
}

/// A number is written without leading zeros; the number that is `base` times as
/// large, plus a digit, is written with that digit behind it.
pub proof fn numbers_are_written_digit_by_digit(n: nat, d: nat, base: nat, upper: bool)
    requires
        2 <= base <= 16,
        d < base,
    ensures
        n < base ==> digits(n, base, upper) == seq![digit_char(n as int, upper)],
        n > 0 ==> digits(n, base, upper)[0] != '0',
        n > 0 ==> digits(n * base + d, base, upper) == digits(n, base, upper).push(
            digit_char(d as int, upper),
        ),
    decreases n,
{
    if n > 0 {
        assert(n * base + d >= base && (n * base + d) / base == n && (n * base + d) % base == d)
            by (nonlinear_arith)
            requires
                n > 0,
                d < base,
                base >= 2,
        ;
        if n >= base {
            assert(0 < n / base < n) by (nonlinear_arith)
                requires
                    n >= base,
                    base >= 2,
            ;
            numbers_are_written_digit_by_digit(n / base, d, base, upper);
            lemma_digits(n / base, base, upper);
        }
    }
}

/// Leading zeros do not change the value of a digit string.
pub proof fn leading_zeros_are_ignored(s: Seq<char>, base: nat)
    ensures
        positional(seq!['0'] + s, base) == positional(s, base),
    decreases s.len(),
{
    let z = seq!['0'] + s;
    if s.len() == 0 {
        assert(z.drop_last() =~= Seq::empty());
        assert(positional(z.drop_last(), base) * base == 0) by (nonlinear_arith)
            requires
                positional(z.drop_last(), base) == 0,
        ;
    } else {
        assert(z.drop_last() =~= seq!['0'] + s.drop_last());
        leading_zeros_are_ignored(s.drop_last(), base);
    }
}

/// The value of a digit string depends on the values of its digits alone, so
/// letters may be in either case.
pub proof fn letter_case_of_digits_is_ignored(s: Seq<char>, t: Seq<char>, base: nat)
    requires
        s.len() == t.len(),
        forall|i: int| 0 <= i < s.len() ==> digit_value(#[trigger] s[i]) == digit_value(t[i]),
    ensures
        positional(s, base) == positional(t, base),
        is_digit_string(s, base) <==> is_digit_string(t, base),
    decreases s.len(),
{
    assert forall|i: int| 0 <= i < t.len() implies digit_value(#[trigger] t[i]) == digit_value(
        s[i],
    ) by {
        assert(digit_value(s[i]) == digit_value(t[i]));
    }
    if s.len() > 0 {
        let u = s.drop_last();
        let v = t.drop_last();
        assert forall|i: int| 0 <= i < u.len() implies digit_value(#[trigger] u[i])
            == digit_value(v[i]) by {
            assert(u[i] == s[i] && v[i] == t[i]);
        }
        letter_case_of_digits_is_ignored(u, v, base);
        assert(digit_value(s[s.len() - 1]) == digit_value(t[s.len() - 1]));
    }
}

/// A text is a number exactly where it has a digit and nothing but digits, with
/// at most one plus sign in front, which does not change the value.
pub proof fn numbers_are_digits_behind_a_sign(s: Seq<char>, base: nat, i: int)
    requires
        2 <= base <= 36,
    ensures
        s.len() == 0 ==> unsigned_value(s, base) is None,
        s == seq!['+'] ==> unsigned_value(s, base) is None,
        0 <= i < s.len() && digit_value(s[i]) >= base && !(i == 0 && s[i] == '+')
            ==> unsigned_value(s, base) is None,
        is_digit_string(s, base) ==> unsigned_value(s, base) == Some(positional(s, base))
            && unsigned_value(seq!['+'] + s, base) == Some(positional(s, base)),
{
    let signed = seq!['+'] + s;
    assert(signed.skip(1) =~= s);
    if 0 <= i < s.len() && digit_value(s[i]) >= base && !(i == 0 && s[i] == '+') {
        let d = without_sign(s);
        if s[0] == '+' {
            assert(d[i - 1] == s[i]);
        } else {
            assert(d[i] == s[i]);
        }
    }
    if is_digit_string(s, base) {
        assert(digit_value(s[0]) < base);
    }
}

/// A number that is too large is not read, and every other one is.
pub proof fn bounds_are_kept(s: Seq<char>, base: nat, max: nat, n: nat)
    ensures
        bounded_value(s, base, max) == Some(n) <==> unsigned_value(s, base) == Some(n) && n <= max,
        unsigned_value(s, base) is None ==> bounded_value(s, base, max) is None,
{
}

/// Every byte is written as two digits, which have its value, in the place that
/// the byte has and in the wanted case.
pub proof fn bytes_are_two_digits_each(bytes: Seq<u8>, upper: bool, i: int)
    requires
        0 <= i < bytes.len(),
    ensures
        bytes_hex(bytes, upper).len() == 2 * bytes.len(),
        digit_value(bytes_hex(bytes, upper)[2 * i]) * 16 + digit_value(
            bytes_hex(bytes, upper)[2 * i + 1],
        ) == bytes[i],
        upper ==> !('a' <= bytes_hex(bytes, upper)[2 * i] <= 'z') && !('a' <= bytes_hex(
            bytes,
            upper,
        )[2 * i + 1] <= 'z'),
        !upper ==> !('A' <= bytes_hex(bytes, upper)[2 * i] <= 'Z') && !('A' <= bytes_hex(
            bytes,
            upper,
        )[2 * i + 1] <= 'Z'),
    decreases bytes.len(),
{
    let front = bytes.drop_last();
    let s = bytes_hex(bytes, upper);
    lemma_bytes_hex(bytes, upper);
    lemma_bytes_hex(front, upper);
    if i < front.len() {
        bytes_are_two_digits_each(front, upper, i);
        assert(s[2 * i] == bytes_hex(front, upper)[2 * i]);
        assert(s[2 * i + 1] == bytes_hex(front, upper)[2 * i + 1]);
        assert(front[i] == bytes[i]);
    } else {
        digits_have_their_characters(bytes[i] as int / 16, upper);
        digits_have_their_characters(bytes[i] as int % 16, upper);
        assert(s[2 * i] == digit_char(bytes[i] as int / 16, upper));
        assert(s[2 * i + 1] == digit_char(bytes[i] as int % 16, upper));
    }
}

}
