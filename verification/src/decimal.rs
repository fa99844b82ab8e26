//! Decimal text of unsigned integers, in both directions.

use vstd::prelude::*;

verus! {

/// The character that writes the decimal digit `d` (taken modulo ten).
pub open spec fn digit_char(d: nat) -> char {
    let d = d % 10;
    if d == 0 { '0' }
    else if d == 1 { '1' }
    else if d == 2 { '2' }
    else if d == 3 { '3' }
    else if d == 4 { '4' }
    else if d == 5 { '5' }
    else if d == 6 { '6' }
    else if d == 7 { '7' }
    else if d == 8 { '8' }
    else { '9' }
}

/// The decimal text of `n`: its digits, most significant first, without
/// leading zeros (zero itself is written `0`).
pub open spec fn decimal(n: nat) -> Seq<char>
    decreases n,
{
    if n < 10 {
        seq![digit_char(n)]
    } else {
        decimal(n / 10).push(digit_char(n % 10))
    }
}

/// The digits of `ds` (least significant first) written most significant first.
pub open spec fn digits_text(ds: Seq<u8>) -> Seq<char> {
    Seq::new(ds.len(), |i: int| digit_char(ds[ds.len() - 1 - i] as nat))
}

/// A static string holding the single digit `d`.
fn digit_str(d: u8) -> (s: &'static str)
    requires
        d < 10,
    ensures
        s@ == seq![digit_char(d as nat)],
{
    match d {
        0 => { proof { reveal_strlit("0"); } "0" },
        1 => { proof { reveal_strlit("1"); } "1" },
        2 => { proof { reveal_strlit("2"); } "2" },
        3 => { proof { reveal_strlit("3"); } "3" },
        4 => { proof { reveal_strlit("4"); } "4" },
        5 => { proof { reveal_strlit("5"); } "5" },
        6 => { proof { reveal_strlit("6"); } "6" },
        7 => { proof { reveal_strlit("7"); } "7" },
        8 => { proof { reveal_strlit("8"); } "8" },
        _ => { proof { reveal_strlit("9"); } "9" },
    }
}

/// Appends the decimal text of `n` to `out`.
pub fn push_decimal(out: &mut String, n: u128)
    ensures
        final(out)@ == old(out)@ + decimal(n as nat),
{
    let mut digits: Vec<u8> = Vec::new();
    let mut rem: u128 = n;
    if n == 0 {
        digits.push(0);
    } else {
        while rem > 0
            invariant
                n > 0,
                forall|i: int| 0 <= i < digits@.len() ==> digits@[i] < 10,
                rem > 0 ==> decimal(n as nat) == decimal(rem as nat) + digits_text(digits@),
                rem == 0 ==> decimal(n as nat) == digits_text(digits@),
            decreases rem,
        {
            let d: u8 = (rem % 10) as u8;
            let next: u128 = rem / 10;
            let ghost old_digits = digits@;
            digits.push(d);
            assert(digits_text(digits@) =~= seq![digit_char(d as nat)] + digits_text(old_digits));
            if next > 0 {
                assert(decimal(rem as nat) == decimal(next as nat).push(digit_char(d as nat)));
                assert(decimal(next as nat).push(digit_char(d as nat)) + digits_text(old_digits)
                    =~= decimal(next as nat) + (seq![digit_char(d as nat)] + digits_text(old_digits)));
            } else {
                assert(decimal(rem as nat) == seq![digit_char(d as nat)]);
            }
            rem = next;
        }
    }
    assert(decimal(0) == seq!['0']);
    assert(n == 0 ==> digits_text(digits@) =~= seq!['0']);
    let ghost start = out@;
    let len = digits.len();
    let mut i = len;
    while i > 0
        invariant
            i <= len,
            len == digits@.len(),
            forall|k: int| 0 <= k < digits@.len() ==> digits@[k] < 10,
            out@ == start + digits_text(digits@).take(len - i),
        decreases i,
    {
        let d = digits[i - 1];
        out.append(digit_str(d));
        assert(digits_text(digits@).take(len - i + 1) =~= digits_text(digits@).take(len - i).push(
            digit_char(d as nat)));
        i = i - 1;
    }
    assert(digits_text(digits@).take(len as int) =~= digits_text(digits@));
}

/// The decimal text of `n`.
pub fn decimal_string(n: u128) -> (s: String)
    ensures
        s@ == decimal(n as nat),
{
    let mut s = String::new();
    push_decimal(&mut s, n);
    assert(s@ =~= decimal(n as nat));
    s
}

/// Why a text is not the decimal form of an unsigned machine integer; the
/// same three cases that the standard library tells apart.
#[derive(Debug, Clone, Copy, PartialEq, Eq, Structural)]
pub enum IntErrorKind {
    /// The text is empty.
    Empty,
    /// The text holds a character that is not a decimal digit (a lone sign counts as one).
    InvalidDigit,
    /// The number does not fit in the target type.
    PosOverflow,
}

/// Whether `c` is one of the ten decimal digits.
pub open spec fn is_digit(c: char) -> bool {
    '0' as int <= c as int <= '9' as int
}

/// The value of the digit `c`.
pub open spec fn digit_value(c: char) -> nat {
    (c as int - '0' as int) as nat
}

/// Reads `s` as decimal digits from left to right into a `usize`; the first
/// problem met from the left decides the error.
pub open spec fn scan_digits(s: Seq<char>) -> Result<nat, IntErrorKind>
    decreases s.len(),
{
    if s.len() == 0 {
        Ok(0)
    } else {
        match scan_digits(s.drop_last()) {
            Err(e) => Err(e),
            Ok(v) => if !is_digit(s.last()) {
                Err(IntErrorKind::InvalidDigit)
            } else if v * 10 + digit_value(s.last()) > usize::MAX {
                Err(IntErrorKind::PosOverflow)
            } else {
                Ok(v * 10 + digit_value(s.last()))
            },
        }
    }
}

/// The digits that follow an optional leading `+`.
pub open spec fn unsigned_digits(s: Seq<char>) -> Seq<char> {
    if s.len() > 0 && s[0] == '+' { s.drop_first() } else { s }
}

/// How a `usize` is read from text: an optional `+`, then one or more
/// decimal digits whose value fits in a `usize`.
pub open spec fn parse_usize_spec(s: Seq<char>) -> Result<usize, IntErrorKind> {
    if s.len() == 0 {
        Err(IntErrorKind::Empty)
    } else if s.len() == 1 && (s[0] == '+' || s[0] == '-') {
        Err(IntErrorKind::InvalidDigit)
    } else {
        match scan_digits(unsigned_digits(s)) {
            Ok(v) => Ok(v as usize),
            Err(e) => Err(e),
        }
    }
}

/// Once a prefix of the digits fails to scan, the whole text fails the same way.
proof fn lemma_scan_error_extends(s: Seq<char>, n: int)
    requires
        0 <= n <= s.len(),
        scan_digits(s.take(n)) is Err,
    ensures
        scan_digits(s) == scan_digits(s.take(n)),
    decreases s.len(),
{
    if n == s.len() {
        assert(s.take(n) =~= s);
    } else {
        assert(s.drop_last().take(n) =~= s.take(n));
        lemma_scan_error_extends(s.drop_last(), n);
    }
}

/// Reads a `usize` from decimal text: an optional `+`, then decimal digits.
pub fn parse_usize(s: &str) -> (res: Result<usize, IntErrorKind>)
    ensures
        res == parse_usize_spec(s@),
{
    broadcast use vstd::string::group_string_axioms;

    let mut acc: usize = 0;
    let mut at_start = true;
    let mut signed = false;
    let mut any_digit = false;
    let ghost mut k: int = 0;
    let ghost digits = unsigned_digits(s@);
    for c in it: s.chars()
        invariant
            k == it.index(),
            it.seq() == s@,
            at_start <==> k == 0,
            signed ==> s@.len() > 0 && s@[0] == '+',
            !at_start ==> (signed <==> s@[0] == '+'),
            digits == unsigned_digits(s@),
            k - (if signed { 1int } else { 0int }) >= 0,
            any_digit <==> k - (if signed { 1int } else { 0int }) > 0,
            scan_digits(digits.take(k - (if signed { 1int } else { 0int }))) == Ok::<nat, IntErrorKind>(acc as nat),
    {
        assert(c == s@[k]);
        if at_start && c == '+' {
            signed = true;
            assert(digits.take(0) =~= Seq::<char>::empty());
        } else {
            let ghost j: int = k - (if signed { 1int } else { 0int });
            assert(digits[j] == c);
            assert(digits.take(j + 1).drop_last() =~= digits.take(j));
            if !('0' <= c && c <= '9') {
                proof { lemma_scan_error_extends(digits, j + 1); }
                return Err(IntErrorKind::InvalidDigit);
            }
            let d: usize = (c as u32 - '0' as u32) as usize;
            assert(d == digit_value(c));
            if acc > (usize::MAX - d) / 10 {
                assert(acc * 10 + d > usize::MAX) by (nonlinear_arith)
                    requires acc > (usize::MAX - d) / 10, d <= 9;
                proof { lemma_scan_error_extends(digits, j + 1); }
                return Err(IntErrorKind::PosOverflow);
            }
            assert(acc * 10 + d <= usize::MAX) by (nonlinear_arith)
                requires acc <= (usize::MAX - d) / 10, d <= 9;
            acc = acc * 10 + d;
            any_digit = true;
        }
        at_start = false;
        proof { k = k + 1; }
    }
    if at_start {
        return Err(IntErrorKind::Empty);
    }
    if !any_digit {
        return Err(IntErrorKind::InvalidDigit);
    }
    assert(digits.take(digits.len() as int) =~= digits);
    Ok(acc)
}

/// Every character of `digit_char(d)` is a digit, and it reads back as `d % 10`.
proof fn lemma_digit_char(d: nat)
    ensures
        is_digit(digit_char(d)),
        digit_value(digit_char(d)) == d % 10,
{
}

/// The decimal text of `n` reads back as `n`.
proof fn lemma_scan_decimal(n: nat)
    requires
        n <= usize::MAX,
    ensures
        scan_digits(decimal(n)) == Ok::<nat, IntErrorKind>(n),
        decimal(n).len() >= 1,
        is_digit(decimal(n)[0]),
    decreases n,
{
    lemma_digit_char(n);
    if n < 10 {
        assert(decimal(n).drop_last() =~= Seq::<char>::empty());
        assert(scan_digits(Seq::<char>::empty()) == Ok::<nat, IntErrorKind>(0));
        assert(decimal(n).last() == digit_char(n));
    } else {
        lemma_scan_decimal(n / 10);
        lemma_digit_char(n % 10);
        assert(decimal(n).drop_last() =~= decimal(n / 10));
        assert(decimal(n).last() == digit_char(n % 10));
        assert((n / 10) * 10 + n % 10 == n);
        assert(n % 10 % 10 == n % 10);
    }
}

/// Law: writing a `usize` in decimal and reading the text back gives the same
/// number.
pub proof fn lemma_parse_decimal_roundtrip(n: usize)
    ensures
        parse_usize_spec(decimal(n as nat)) == Ok::<usize, IntErrorKind>(n),
{
    lemma_scan_decimal(n as nat);
    let s = decimal(n as nat);
    assert(s[0] != '+' && s[0] != '-');
    assert(unsigned_digits(s) == s);
}

} // verus!
