//! Decimal text of unsigned integers: reading it (`str::parse`) and writing it
//! (`to_string`, `{:0w}`).
use vstd::prelude::*;

verus! {

pub open spec fn is_digit(c: char) -> bool {
    '0' <= c && c <= '9'
}

pub open spec fn digit_value(c: char) -> nat {
    ((c as u32) - ('0' as u32)) as nat
}

/// The value of the digits `d` read after the value `acc` already read.
pub open spec fn digits_value_from(acc: nat, d: Seq<char>) -> nat
    decreases d.len(),
{
    if d.len() == 0 {
        acc
    } else {
        digits_value_from(acc * 10 + digit_value(d[0]), d.drop_first())
    }
}

/// The number that a run of decimal digits spells.
pub open spec fn digits_value(d: Seq<char>) -> nat {
    digits_value_from(0, d)
}

/// Why `str::parse` refuses a text as an unsigned integer
/// (`core::num::IntErrorKind`).
#[derive(Debug, Clone, Copy, PartialEq, Eq, Structural)]
pub enum IntErrorKind {
    /// The text is empty.
    Empty,
    /// A character is not a digit, or no digit follows the sign.
    InvalidDigit,
    /// The value does not fit in the type.
    PosOverflow,
}

impl IntErrorKind {
    /// `ParseIntError`'s message.
    pub fn message(&self) -> (m: &'static str)
        ensures
            m@ == (match self {
                IntErrorKind::Empty => "cannot parse integer from empty string"@,
                IntErrorKind::InvalidDigit => "invalid digit found in string"@,
                IntErrorKind::PosOverflow => "number too large to fit in target type"@,
            }),
    {
        match self {
            IntErrorKind::Empty => "cannot parse integer from empty string",
            IntErrorKind::InvalidDigit => "invalid digit found in string",
            IntErrorKind::PosOverflow => "number too large to fit in target type",
        }
    }
}

/// Reading the digits `d` from left to right after the value `acc`: the first
/// non-digit, or the first digit that takes the value past `max`, is an error.
pub open spec fn scan_digits(d: Seq<char>, acc: nat, max: nat) -> Result<nat, IntErrorKind>
    decreases d.len(),
{
    if d.len() == 0 {
        Ok(acc)
    } else if !is_digit(d[0]) {
        Err(IntErrorKind::InvalidDigit)
    } else if acc * 10 + digit_value(d[0]) > max {
        Err(IntErrorKind::PosOverflow)
    } else {
        scan_digits(d.drop_first(), acc * 10 + digit_value(d[0]), max)
    }
}

/// The digits after an optional leading `+`.
pub open spec fn unsigned_digits(s: Seq<char>) -> Seq<char> {
    if s.len() > 0 && s[0] == '+' {
        s.drop_first()
    } else {
        s
    }
}

/// `str::parse` for an unsigned integer type whose largest value is `max`: an
/// optional `+`, then one or more ASCII digits, whose value must not exceed `max`.
pub open spec fn parse_unsigned_result(s: Seq<char>, max: nat) -> Result<nat, IntErrorKind> {
    if s.len() == 0 {
        Err(IntErrorKind::Empty)
    } else if unsigned_digits(s).len() == 0 {
        Err(IntErrorKind::InvalidDigit)
    } else {
        scan_digits(unsigned_digits(s), 0, max)
    }
}

/// Whether and to what `str::parse` reads a text, as above.
pub open spec fn parse_unsigned(s: Seq<char>, max: nat) -> Option<nat> {
    match parse_unsigned_result(s, max) {
        Ok(n) => Some(n),
        Err(_) => None,
    }
}

/// `str::parse::<uN>` where `max` is the largest value of `uN` (at most `u64::MAX`).
pub fn parse_unsigned_chars(s: &[char], max: u64) -> (r: Result<u64, IntErrorKind>)
    ensures
        match parse_unsigned_result(s@, max as nat) {
            Ok(n) => r == Ok::<u64, IntErrorKind>(n as u64),
            Err(k) => r == Err::<u64, IntErrorKind>(k),
        },
{
    if s.len() == 0 {
        return Err(IntErrorKind::Empty);
    }
    let start: usize = if s[0] == '+' {
        1
    } else {
        0
    };
    let ghost d = unsigned_digits(s@);
    assert(d =~= s@.skip(start as int));
    if start >= s.len() {
        return Err(IntErrorKind::InvalidDigit);
    }
    let mut acc: u64 = 0;
    let mut i: usize = start;
    assert(d.skip(0) =~= d);
    while i < s.len()
        invariant
            start <= i <= s@.len(),
            start < s@.len(),
            s@.len() > 0,
            d == s@.skip(start as int),
            d == unsigned_digits(s@),
            acc <= max,
            parse_unsigned_result(s@, max as nat) == scan_digits(
                d.skip(i - start),
                acc as nat,
                max as nat,
            ),
        decreases s@.len() - i,
    {
        let c = s[i];
        assert(d.skip(i - start)[0] == c);
        assert(d.skip(i - start).drop_first() =~= d.skip(i - start + 1));
        if !('0' <= c && c <= '9') {
            return Err(IntErrorKind::InvalidDigit);
        }
        let dv: u64 = (c as u32 - '0' as u32) as u64;
        let next: u128 = (acc as u128) * 10 + (dv as u128);
        if next > max as u128 {
            return Err(IntErrorKind::PosOverflow);
        }
        acc = next as u64;
        i += 1;
    }
    assert(d.skip(i - start) =~= Seq::<char>::empty());
    Ok(acc)
}

/// A value that parses fits the type.
pub proof fn lemma_parse_bounded(s: Seq<char>, max: nat)
    ensures
        parse_unsigned_result(s, max) matches Ok(n) ==> n <= max,
{
    if s.len() > 0 && unsigned_digits(s).len() > 0 {
        lemma_scan_bounded(unsigned_digits(s), 0, max);
    }
}

proof fn lemma_scan_bounded(d: Seq<char>, acc: nat, max: nat)
    ensures
        acc <= max ==> (scan_digits(d, acc, max) matches Ok(n) ==> n <= max),
    decreases d.len(),
{
    if d.len() > 0 {
        lemma_scan_bounded(d.drop_first(), acc * 10 + digit_value(d[0]), max);
    }
}

/// The largest value of `usize`, as a `u64`.
pub fn usize_max_u64() -> (m: u64)
    ensures
        m as nat == usize::MAX as nat,
{
    assert(usize::MAX <= u64::MAX);
    usize::MAX as u64
}

/// `str::parse::<usize>`.
pub fn parse_usize_chars(s: &[char]) -> (r: Result<usize, IntErrorKind>)
    ensures
        match parse_unsigned_result(s@, usize::MAX as nat) {
            Ok(n) => r == Ok::<usize, IntErrorKind>(n as usize),
            Err(k) => r == Err::<usize, IntErrorKind>(k),
        },
{
    proof {
        lemma_parse_bounded(s@, usize::MAX as nat);
    }
    match parse_unsigned_chars(s, usize_max_u64()) {
        Ok(n) => Ok(n as usize),
        Err(k) => Err(k),
    }
}

/// `str::parse::<u32>`.
pub fn parse_u32_chars(s: &[char]) -> (r: Result<u32, IntErrorKind>)
    ensures
        match parse_unsigned_result(s@, u32::MAX as nat) {
            Ok(n) => r == Ok::<u32, IntErrorKind>(n as u32),
            Err(k) => r == Err::<u32, IntErrorKind>(k),
        },
{
    proof {
        lemma_parse_bounded(s@, u32::MAX as nat);
    }
    match parse_unsigned_chars(s, u32::MAX as u64) {
        Ok(n) => Ok(n as u32),
        Err(k) => Err(k),
    }
}

/// The character of a decimal digit.
pub open spec fn digit_char(d: nat) -> char {
    if d == 0 {
        '0'
    } else if d == 1 {
        '1'
    } else if d == 2 {
        '2'
    } else if d == 3 {
        '3'
    } else if d == 4 {
        '4'
    } else if d == 5 {
        '5'
    } else if d == 6 {
        '6'
    } else if d == 7 {
        '7'
    } else if d == 8 {
        '8'
    } else {
        '9'
    }
}

/// `to_string` of an unsigned integer: its decimal digits, without leading zeros.
pub open spec fn decimal(n: nat) -> Seq<char>
    decreases n,
{
    if n < 10 {
        seq![digit_char(n)]
    } else {
        decimal(n / 10).push(digit_char(n % 10))
    }
}

/// `format!("{:0w}", n)`: the decimal digits of `n`, padded with zeros on the left
/// to at least `w` characters.
pub open spec fn zero_padded(n: nat, w: nat) -> Seq<char> {
    let d = decimal(n);
    if d.len() < w {
        Seq::new((w - d.len()) as nat, |i: int| '0') + d
    } else {
        d
    }
}

fn digit_char_exec(d: u64) -> (c: char)
    requires
        d < 10,
    ensures
        c == digit_char(d as nat),
{
    if d == 0 {
        '0'
    } else if d == 1 {
        '1'
    } else if d == 2 {
        '2'
    } else if d == 3 {
        '3'
    } else if d == 4 {
        '4'
    } else if d == 5 {
        '5'
    } else if d == 6 {
        '6'
    } else if d == 7 {
        '7'
    } else if d == 8 {
        '8'
    } else {
        '9'
    }
}

/// Appends the decimal digits of `n` to `out`.
pub fn push_decimal(out: &mut Vec<char>, n: u64)
    ensures
        final(out)@ == old(out)@ + decimal(n as nat),
    decreases n,
{
    if n < 10 {
        out.push(digit_char_exec(n));
        assert(old(out)@.push(digit_char(n as nat)) =~= old(out)@ + decimal(n as nat));
    } else {
        push_decimal(out, n / 10);
        out.push(digit_char_exec(n % 10));
        assert(old(out)@ + decimal((n / 10) as nat) + seq![digit_char((n % 10) as nat)]
            =~= old(out)@ + decimal(n as nat));
    }
}

/// The decimal digits of `n`.
pub fn decimal_chars(n: u64) -> (r: Vec<char>)
    ensures
        r@ == decimal(n as nat),
{
    let mut r: Vec<char> = Vec::new();
    push_decimal(&mut r, n);
    assert(Seq::<char>::empty() + decimal(n as nat) =~= decimal(n as nat));
    r
}

pub proof fn lemma_decimal_len(n: nat)
    ensures
        decimal(n).len() >= 1,
    decreases n,
{
    if n >= 10 {
        lemma_decimal_len(n / 10);
    }
}

/// The decimal digits of `n`, padded with zeros on the left to `w` characters.
pub fn zero_padded_chars(n: u64, w: usize) -> (r: Vec<char>)
    ensures
        r@ == zero_padded(n as nat, w as nat),
{
    let d = decimal_chars(n);
    if d.len() < w {
        let mut r: Vec<char> = Vec::new();
        let k = w - d.len();
        let mut i: usize = 0;
        while i < k
            invariant
                i <= k,
                r@ == Seq::new(i as nat, |j: int| '0'),
            decreases k - i,
        {
            r.push('0');
            assert(r@ =~= Seq::new((i + 1) as nat, |j: int| '0'));
            i += 1;
        }
        crate::text::append_chars(&mut r, d.as_slice());
        r
    } else {
        d
    }
}

/// Reading back what `to_string` wrote gives the number again, for any
/// unsigned type that can hold it.
pub proof fn law_parse_decimal_roundtrip(n: nat, max: nat)
    requires
        n <= max,
    ensures
        parse_unsigned_result(decimal(n), max) == Ok::<nat, IntErrorKind>(n),
{
    lemma_decimal_digits(n);
    assert(unsigned_digits(decimal(n)) == decimal(n));
    lemma_scan_all_digits(decimal(n), 0, max);
}

/// `decimal(n)` is a nonempty run of ASCII digits.
pub proof fn lemma_decimal_is_digits(n: nat)
    ensures
        decimal(n).len() >= 1,
        forall|i: int| 0 <= i < decimal(n).len() ==> is_digit(#[trigger] decimal(n)[i]),
{
    lemma_decimal_digits(n);
}

/// A zero-padded number is a run of ASCII digits.
pub proof fn lemma_zero_padded_digits(n: nat, w: nat)
    ensures
        forall|i: int| 0 <= i < zero_padded(n, w).len() ==> is_digit(#[trigger] zero_padded(n, w)[i]),
{
    lemma_decimal_digits(n);
    let d = decimal(n);
    if d.len() < w {
        let z = Seq::new((w - d.len()) as nat, |i: int| '0');
        assert forall|i: int| 0 <= i < zero_padded(n, w).len() implies is_digit(
            #[trigger] zero_padded(n, w)[i],
        ) by {
            if i < z.len() {
                assert(zero_padded(n, w)[i] == z[i]);
            } else {
                assert(zero_padded(n, w)[i] == d[i - z.len()]);
            }
        }
    }
}

/// The digits of `decimal(n)` spell `n`.
proof fn lemma_decimal_digits(n: nat)
    ensures
        decimal(n).len() >= 1,
        forall|i: int| 0 <= i < decimal(n).len() ==> is_digit(#[trigger] decimal(n)[i]),
        digits_value(decimal(n)) == n,
        decimal(n)[0] != '+',
    decreases n,
{
    lemma_digit_char((n % 10) as nat);
    if n < 10 {
        assert(decimal(n).drop_first() =~= Seq::<char>::empty());
        assert(digits_value(decimal(n)) == digits_value_from(
            digit_value(decimal(n)[0]),
            Seq::<char>::empty(),
        ));
    } else {
        lemma_decimal_digits(n / 10);
        assert(decimal(n).drop_last() =~= decimal(n / 10));
        assert(decimal(n)[0] == decimal(n / 10)[0]);
        lemma_value_push(0, decimal(n / 10), digit_char(n % 10));
        assert(decimal(n / 10).push(digit_char(n % 10)) == decimal(n));
    }
}

proof fn lemma_digit_char(d: nat)
    requires
        d < 10,
    ensures
        is_digit(digit_char(d)),
        digit_value(digit_char(d)) == d,
{
}

proof fn lemma_value_push(acc: nat, d: Seq<char>, x: char)
    ensures
        digits_value_from(acc, d.push(x)) == digits_value_from(acc, d) * 10 + digit_value(x),
    decreases d.len(),
{
    assert(d.push(x)[0] == (if d.len() == 0 {
        x
    } else {
        d[0]
    }));
    if d.len() == 0 {
        assert(d.push(x).drop_first() =~= Seq::<char>::empty());
        assert(digits_value_from(acc, d.push(x)) == digits_value_from(
            acc * 10 + digit_value(x),
            Seq::<char>::empty(),
        ));
    } else {
        let a2 = acc * 10 + digit_value(d[0]);
        assert(d.push(x).drop_first() =~= d.drop_first().push(x));
        lemma_value_push(a2, d.drop_first(), x);
        assert(digits_value_from(acc, d.push(x)) == digits_value_from(a2, d.drop_first().push(x)));
        assert(digits_value_from(acc, d) == digits_value_from(a2, d.drop_first()));
    }
}

proof fn lemma_value_from_ge(acc: nat, d: Seq<char>)
    ensures
        digits_value_from(acc, d) >= acc,
    decreases d.len(),
{
    if d.len() > 0 {
        lemma_value_from_ge(acc * 10 + digit_value(d[0]), d.drop_first());
    }
}

proof fn lemma_scan_all_digits(d: Seq<char>, acc: nat, max: nat)
    requires
        forall|i: int| 0 <= i < d.len() ==> is_digit(#[trigger] d[i]),
        digits_value_from(acc, d) <= max,
    ensures
        scan_digits(d, acc, max) == Ok::<nat, IntErrorKind>(digits_value_from(acc, d)),
    decreases d.len(),
{
    if d.len() > 0 {
        assert(is_digit(d[0]));
        lemma_value_from_ge(acc * 10 + digit_value(d[0]), d.drop_first());
        assert forall|i: int| 0 <= i < d.drop_first().len() implies is_digit(
            #[trigger] d.drop_first()[i],
        ) by {
            assert(d.drop_first()[i] == d[i + 1]);
        }
        lemma_scan_all_digits(d.drop_first(), acc * 10 + digit_value(d[0]), max);
    }
}

} // verus!
