//! Numbers as text: decimal and hexadecimal rendering, and the strict reading of unsigned numbers.

use vstd::prelude::*;

verus! {

/// The character that stands for a digit below sixteen, in lower case.
pub open spec fn digit_char(d: nat) -> char {
    if d < 10 {
        ('0' as nat + d) as char
    } else {
        ('a' as nat + (d - 10)) as char
    }
}

/// The number `n` written in base `radix`, most significant digit first and without leading
/// zeros.
pub open spec fn numeral(n: nat, radix: nat) -> Seq<char>
    decreases n,
{
    if n < radix || radix < 2 {
        seq![digit_char(n)]
    } else {
        proof {
            lemma_quotient_shrinks(n, radix);
        }
        numeral(n / radix, radix).push(digit_char(n % radix))
    }
}

/// Whether `c` is one of the ten decimal digits.
pub open spec fn is_decimal_digit(c: char) -> bool {
    '0' <= c && c <= '9'
}

/// Whether every character is a decimal digit.
pub open spec fn all_decimal_digits(s: Seq<char>) -> bool {
    forall|i: int| 0 <= i < s.len() ==> is_decimal_digit(#[trigger] s[i])
}

/// The number that a string of decimal digits stands for.
pub open spec fn decimal_value(s: Seq<char>) -> nat
    decreases s.len(),
{
    if s.len() == 0 {
        0
    } else {
        decimal_value(s.drop_last()) * 10 + (s.last() as nat - '0' as nat) as nat
    }
}

/// The digits of a written number: what follows one leading `+`, or all of it where there is none.
pub open spec fn unsigned_digits(s: Seq<char>) -> Seq<char> {
    if s.len() > 0 && s[0] == '+' {
        s.skip(1)
    } else {
        s
    }
}

/// What a text says as an unsigned number up to `max`: an optional `+`, then one or more decimal
/// digits and nothing else. `None` where it is not of that form or the number is larger.
pub open spec fn unsigned_number(s: Seq<char>, max: nat) -> Option<nat> {
    let digits = unsigned_digits(s);
    if digits.len() > 0 && all_decimal_digits(digits) && decimal_value(digits) <= max {
        Some(decimal_value(digits))
    } else {
        None
    }
}

/// Dividing by two or more makes a positive number smaller.
pub proof fn lemma_quotient_shrinks(n: nat, radix: nat)
    by (nonlinear_arith)
    requires
        radix >= 2,
        n >= radix,
    ensures
        n / radix < n,
{
}

/// The characters of a string, in order.
pub fn chars_of(s: &str) -> (r: Vec<char>)
    ensures
        r@ == s@,
{
    let mut out: Vec<char> = Vec::new();
    for c in it: s.chars()
        invariant
            out@ == s@.take(it.index() as int),
            it.seq() == s@,
    {
        assert(s@.take(it.index() + 1) =~= s@.take(it.index() as int).push(c));
        out.push(c);
    }
    assert(s@.take(s@.len() as int) =~= s@);
    out
}

/// A number read off a longer run of digits is at least the number read off a shorter one.
proof fn lemma_decimal_value_grows(s: Seq<char>, n: int)
    requires
        all_decimal_digits(s),
        0 <= n <= s.len(),
    ensures
        decimal_value(s.take(n)) <= decimal_value(s),
    decreases s.len() - n,
{
    if n < s.len() {
        lemma_decimal_value_grows(s, n + 1);
        assert(s.take(n + 1).drop_last() =~= s.take(n));
        assert(is_decimal_digit(s[n]));
    } else {
        assert(s.take(n) =~= s);
    }
}

/// Reads a text as an unsigned number up to `max`, as the standard library reads its unsigned
/// integer types.
pub fn parse_unsigned(s: &str, max: u128) -> (r: Option<u128>)
    ensures
        r is Some <==> unsigned_number(s@, max as nat) is Some,
        r is Some ==> r->0 == unsigned_number(s@, max as nat)->0,
{
    parse_unsigned_chars(&chars_of(s), max)
}

/// Reads characters as an unsigned number up to `max`.
pub fn parse_unsigned_chars(chars: &Vec<char>, max: u128) -> (r: Option<u128>)
    ensures
        r is Some <==> unsigned_number(chars@, max as nat) is Some,
        r is Some ==> r->0 == unsigned_number(chars@, max as nat)->0,
{
    let ghost digits = unsigned_digits(chars@);
    let start: usize = if chars.len() > 0 && chars[0] == '+' {
        1
    } else {
        0
    };
    assert(digits =~= chars@.skip(start as int));
    if start == chars.len() {
        return None;
    }
    let mut value: u128 = 0;
    let mut i: usize = start;
    assert(digits.take(0) =~= Seq::<char>::empty());
    while i < chars.len()
        invariant
            start <= i <= chars.len(),
            digits == chars@.skip(start as int),
            digits == unsigned_digits(chars@),
            value == decimal_value(digits.take(i - start)),
            all_decimal_digits(digits.take(i - start)),
            value <= max,
        decreases chars.len() - i,
    {
        let c = chars[i];
        assert(c == digits[i - start]);
        if !('0' <= c && c <= '9') {
            return None;
        }
        let d: u128 = (c as u32 - '0' as u32) as u128;
        let ghost longer = digits.take(i - start + 1);
        assert(longer.drop_last() =~= digits.take(i - start));
        assert(longer.last() == c);
        assert(decimal_value(longer) == value * 10 + d);
        assert(all_decimal_digits(longer)) by {
            assert forall|j: int| 0 <= j < longer.len() implies is_decimal_digit(
                #[trigger] longer[j],
            ) by {
                if j < i - start {
                    assert(longer[j] == digits.take(i - start)[j]);
                }
            }
        }
        if d > max || value > (max - d) / 10 {
            proof {
                if all_decimal_digits(digits) {
                    lemma_decimal_value_grows(digits, i - start + 1);
                    assert(value * 10 + d > max);
                }
            }
            return None;
        }
        value = value * 10 + d;
        i += 1;
    }
    assert(digits.take(digits.len() as int) =~= digits);
    Some(value)
}

/// Appends one digit below sixteen.
fn push_digit(out: &mut String, d: u128)
    requires
        d < 16,
    ensures
        final(out)@ == old(out)@.push(digit_char(d as nat)),
{
    let text: &str = if d < 8 {
        if d < 4 {
            if d < 2 {
                if d == 0 { "0" } else { "1" }
            } else if d == 2 { "2" } else { "3" }
        } else if d < 6 {
            if d == 4 { "4" } else { "5" }
        } else if d == 6 { "6" } else { "7" }
    } else if d < 12 {
        if d < 10 {
            if d == 8 { "8" } else { "9" }
        } else if d == 10 { "a" } else { "b" }
    } else if d < 14 {
        if d == 12 { "c" } else { "d" }
    } else if d == 14 { "e" } else { "f" };
    proof {
        reveal_strlit("0");
        reveal_strlit("1");
        reveal_strlit("2");
        reveal_strlit("3");
        reveal_strlit("4");
        reveal_strlit("5");
        reveal_strlit("6");
        reveal_strlit("7");
        reveal_strlit("8");
        reveal_strlit("9");
        reveal_strlit("a");
        reveal_strlit("b");
        reveal_strlit("c");
        reveal_strlit("d");
        reveal_strlit("e");
        reveal_strlit("f");
        assert(text@ =~= seq![digit_char(d as nat)]);
    }
    out.append(text);
    assert(out@ =~= old(out)@.push(digit_char(d as nat)));
}

/// Writes `n` in base `radix`.
fn push_numeral(out: &mut String, n: u128, radix: u128)
    requires
        2 <= radix <= 16,
    ensures
        final(out)@ == old(out)@ + numeral(n as nat, radix as nat),
    decreases n,
{
    if n < radix {
        push_digit(out, n);
    } else {
        proof {
            lemma_quotient_shrinks(n as nat, radix as nat);
        }
        push_numeral(out, n / radix, radix);
        push_digit(out, n % radix);
    }
    assert(out@ =~= old(out)@ + numeral(n as nat, radix as nat));
}

/// `n` in decimal.
pub fn decimal(n: u128) -> (r: String)
    ensures
        r@ == numeral(n as nat, 10),
{
    let mut out = String::new();
    push_numeral(&mut out, n, 10);
    assert(out@ =~= numeral(n as nat, 10));
    out
}

/// `n` in lower-case hexadecimal after `0x`.
pub fn hex_quantity(n: u64) -> (r: String)
    ensures
        r@ == seq!['0', 'x'] + numeral(n as nat, 16),
{
    let mut out = String::from_str("0x");
    proof {
        reveal_strlit("0x");
        assert(out@ =~= seq!['0', 'x']);
    }
    push_numeral(&mut out, n as u128, 16);
    out
}

/// Bytes in lower-case hexadecimal, two digits each.
pub open spec fn hex_digits(bytes: Seq<u8>) -> Seq<char>
    decreases bytes.len(),
{
    if bytes.len() == 0 {
        Seq::empty()
    } else {
        hex_digits(bytes.drop_last()).push(digit_char(bytes.last() as nat / 16)).push(
            digit_char(bytes.last() as nat % 16),
        )
    }
}

/// Bytes in lower-case hexadecimal, two digits each, after `0x`.
pub fn hex_bytes(bytes: &[u8]) -> (r: String)
    ensures
        r@ == seq!['0', 'x'] + hex_digits(bytes@),
{
    let mut out = String::from_str("0x");
    proof {
        reveal_strlit("0x");
        assert(out@ =~= seq!['0', 'x'] + hex_digits(bytes@.take(0)));
    }
    let mut i: usize = 0;
    while i < bytes.len()
        invariant
            i <= bytes.len(),
            out@ == seq!['0', 'x'] + hex_digits(bytes@.take(i as int)),
        decreases bytes.len() - i,
    {
        let byte = bytes[i] as u128;
        push_digit(&mut out, byte / 16);
        push_digit(&mut out, byte % 16);
        i += 1;
        proof {
            assert(bytes@.take(i as int).drop_last() =~= bytes@.take(i - 1));
            assert(out@ =~= seq!['0', 'x'] + hex_digits(bytes@.take(i as int)));
        }
    }
    assert(bytes@.take(bytes@.len() as int) =~= bytes@);
    out
}

/// Whether two texts hold the same characters.
pub fn same_text(a: &str, b: &str) -> (r: bool)
    ensures
        r == (a@ == b@),
{
    let left = chars_of(a);
    let right = chars_of(b);
    if left.len() != right.len() {
        return false;
    }
    let mut i: usize = 0;
    while i < left.len()
        invariant
            i <= left.len(),
            left.len() == right.len(),
            left@ == a@,
            right@ == b@,
            forall|j: int| 0 <= j < i ==> left@[j] == right@[j],
        decreases left.len() - i,
    {
        if left[i] != right[i] {
            return false;
        }
        i += 1;
    }
    assert(left@ =~= right@);
    true
}

/// `n` in decimal, followed by a suffix.
pub fn numbered(n: u64, suffix: &str) -> (r: String)
    ensures
        r@ == numeral(n as nat, 10) + suffix@,
{
    let mut out = decimal(n as u128);
    out.append(suffix);
    out
}

/// Reading back what [`decimal`] writes gives the number again, for every number up to the
/// reader's limit.
pub proof fn decimal_reads_back(n: nat, max: nat)
    requires
        n <= max,
    ensures
        unsigned_number(numeral(n, 10), max) == Some(n),
{
    lemma_numeral_digits(n);
    let text = numeral(n, 10);
    assert(is_decimal_digit(text[0]));
    assert(unsigned_digits(text) == text);
}

/// A decimal numeral is one or more digits, and stands for its number.
proof fn lemma_numeral_digits(n: nat)
    ensures
        numeral(n, 10).len() > 0,
        all_decimal_digits(numeral(n, 10)),
        decimal_value(numeral(n, 10)) == n,
    decreases n,
{
    let text = numeral(n, 10);
    if n >= 10 {
        lemma_numeral_digits(n / 10);
        assert(text.drop_last() =~= numeral(n / 10, 10));
        assert(text.last() == digit_char(n % 10));
        assert forall|i: int| 0 <= i < text.len() implies is_decimal_digit(#[trigger] text[i]) by {
            if i < text.len() - 1 {
                assert(text[i] == numeral(n / 10, 10)[i]);
            }
        }
    } else {
        assert(text.drop_last() =~= Seq::<char>::empty());
        assert(decimal_value(text.drop_last()) == 0);
    }
}

/// A number below the base is one digit; a larger one is the number of its upper digits, followed by
/// its last. Digits from ten on are lower-case letters.
pub proof fn numerals_are_digits(n: nat, radix: nat)
    requires
        2 <= radix <= 16,
    ensures
        numeral(n, radix).len() > 0,
        numeral(n, radix).last() as nat == (if n % radix < 10 {
            48 + n % radix
        } else {
            87 + n % radix
        }),
        n < radix ==> numeral(n, radix).len() == 1,
        n >= radix ==> numeral(n, radix).drop_last() == numeral(n / radix, radix),
{
    let d = n % radix;
    assert(d < radix) by (nonlinear_arith)
        requires
            d == n % radix,
            radix >= 2,
    ;
    if n < radix {
        vstd::arithmetic::div_mod::lemma_small_mod(n, radix);
    } else {
        assert(numeral(n, radix).drop_last() =~= numeral(n / radix, radix));
    }
}

/// A numeral of more than one digit does not begin with a zero.
pub proof fn numerals_have_no_leading_zeros(n: nat, radix: nat)
    requires
        2 <= radix <= 16,
    ensures
        numeral(n, radix)[0] == '0' <==> n == 0,
    decreases n,
{
    numerals_are_digits(n, radix);
    if n < radix {
        vstd::arithmetic::div_mod::lemma_small_mod(n, radix);
    } else {
        lemma_quotient_shrinks(n, radix);
        numerals_have_no_leading_zeros(n / radix, radix);
        numerals_are_digits(n / radix, radix);
        assert(n / radix > 0) by (nonlinear_arith)
            requires
                n >= radix,
                radix >= 2,
        ;
        assert(numeral(n, radix)[0] == numeral(n / radix, radix)[0]);
    }
}

/// Two numbers that are written alike in one base are the same.
pub proof fn different_numbers_are_written_differently(a: nat, b: nat, radix: nat)
    requires
        2 <= radix <= 16,
        numeral(a, radix) == numeral(b, radix),
    ensures
        a == b,
    decreases a,
{
    numerals_are_digits(a, radix);
    numerals_are_digits(b, radix);
    let p = a % radix;
    let q = b % radix;
    assert(p < radix && q < radix) by (nonlinear_arith)
        requires
            p == a % radix,
            q == b % radix,
            radix >= 2,
    ;
    assert(p == q);
    if a >= radix {
        lemma_quotient_shrinks(a, radix);
        numerals_are_digits(a / radix, radix);
        assert(numeral(a, radix).len() > 1);
        assert(b >= radix);
        different_numbers_are_written_differently(a / radix, b / radix, radix);
        assert(a / radix * radix + p == a && b / radix * radix + q == b) by (nonlinear_arith)
            requires
                p == a % radix,
                q == b % radix,
                radix >= 2,
        ;
    } else {
        if b >= radix {
            numerals_are_digits(b / radix, radix);
            assert(numeral(b, radix).len() > 1);
        }
        vstd::arithmetic::div_mod::lemma_small_mod(a, radix);
        vstd::arithmetic::div_mod::lemma_small_mod(b, radix);
    }
}

/// Each byte is two hexadecimal digits, the upper half first, in lower case.
pub proof fn bytes_are_spelled_in_two_digits(bytes: Seq<u8>, i: int)
    requires
        0 <= i < bytes.len(),
    ensures
        hex_digits(bytes).len() == 2 * bytes.len(),
        hex_digits(bytes)[2 * i] as nat == (if bytes[i] / 16 < 10 {
            48 + bytes[i] / 16
        } else {
            87 + bytes[i] / 16
        }),
        hex_digits(bytes)[2 * i + 1] as nat == (if bytes[i] % 16 < 10 {
            48 + bytes[i] % 16
        } else {
            87 + bytes[i] % 16
        }),
    decreases bytes.len(),
{
    let init = bytes.drop_last();
    lemma_hex_len(bytes);
    lemma_hex_len(init);
    if i < init.len() {
        bytes_are_spelled_in_two_digits(init, i);
        assert(hex_digits(bytes)[2 * i] == hex_digits(init)[2 * i]);
        assert(hex_digits(bytes)[2 * i + 1] == hex_digits(init)[2 * i + 1]);
    }
}

/// There are two hexadecimal digits for each byte.
proof fn lemma_hex_len(bytes: Seq<u8>)
    ensures
        hex_digits(bytes).len() == 2 * bytes.len(),
    decreases bytes.len(),
{
    if bytes.len() > 0 {
        lemma_hex_len(bytes.drop_last());
    }
}

/// Two byte strings that are spelled alike are the same.
pub proof fn different_bytes_are_spelled_differently(a: Seq<u8>, b: Seq<u8>)
    requires
        hex_digits(a) == hex_digits(b),
    ensures
        a == b,
{
    lemma_hex_len(a);
    lemma_hex_len(b);
    assert forall|i: int| 0 <= i < a.len() implies a[i] == b[i] by {
        bytes_are_spelled_in_two_digits(a, i);
        bytes_are_spelled_in_two_digits(b, i);
    }
    assert(a =~= b);
}

/// Hexadecimal digits are ASCII characters, and two for each byte.
pub proof fn hexadecimal_is_ascii(bytes: Seq<u8>)
    ensures
        hex_digits(bytes).len() == 2 * bytes.len(),
        forall|i: int| 0 <= i < hex_digits(bytes).len() ==> '0' <= #[trigger] hex_digits(bytes)[i] <= 'f',
    decreases bytes.len(),
{
    if bytes.len() > 0 {
        let init = bytes.drop_last();
        hexadecimal_is_ascii(init);
        let upper = digit_char(bytes.last() as nat / 16);
        let lower = digit_char(bytes.last() as nat % 16);
        assert forall|i: int| 0 <= i < hex_digits(bytes).len() implies '0' <= #[trigger] hex_digits(
            bytes,
        )[i] <= 'f' by {
            if i < hex_digits(init).len() {
                assert(hex_digits(bytes)[i] == hex_digits(init)[i]);
            } else if i == hex_digits(init).len() {
                assert(hex_digits(bytes)[i] == upper);
            } else {
                assert(hex_digits(bytes)[i] == lower);
            }
        }
    }
}

/// What reads as a number is one or more decimal digits behind at most one plus sign, and reads as what
/// those digits stand for; a number above the limit is turned down like anything else.
pub proof fn only_decimal_digits_read(s: Seq<char>, digits: Seq<char>, max: nat)
    requires
        s == (if s.len() > 0 && s[0] == '+' {
            seq!['+'] + digits
        } else {
            digits
        }),
    ensures
        unsigned_number(s, max) is Some ==> digits.len() > 0 && decimal_value(digits) <= max,
        unsigned_number(s, max) is Some ==> unsigned_number(s, max)->0 == decimal_value(digits),
        unsigned_number(s, max) is Some ==> forall|i: int|
            0 <= i < digits.len() ==> '0' <= #[trigger] digits[i] && digits[i] <= '9',
        digits.len() > 0 && decimal_value(digits) <= max && (forall|i: int|
            0 <= i < digits.len() ==> '0' <= #[trigger] digits[i] && digits[i] <= '9')
            ==> unsigned_number(s, max) is Some,
{
    assert(unsigned_digits(s) =~= digits);
    if unsigned_number(s, max) is Some {
        assert forall|i: int| 0 <= i < digits.len() implies '0' <= #[trigger] digits[i] && digits[i]
            <= '9' by {
            assert(is_decimal_digit(digits[i]));
        }
    }
}

/// Each further digit multiplies by ten and adds itself.
pub proof fn digits_weigh_ten_times(s: Seq<char>, c: char)
    requires
        48 <= c as nat <= 57,
    ensures
        decimal_value(Seq::<char>::empty()) == 0,
        decimal_value(s.push(c)) == 10 * decimal_value(s) + (c as nat - 48),
{
    assert(s.push(c).drop_last() =~= s);
}

} // verus!
