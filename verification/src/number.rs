//! Unsigned numbers in decimal notation: reading them with a bound, and
//! writing them.

use vstd::prelude::*;
use vstd::slice::slice_subrange;

verus! {

/// Why a text is no number.
#[derive(Debug, Copy, Clone, Eq, PartialEq, Structural)]
pub enum NumberError {
    /// The text is empty.
    Empty,
    /// The text holds something else than digits after an optional `+`.
    InvalidDigit,
    /// The number is above the bound.
    TooLarge,
}

impl NumberError {
    /// The error in words.
    pub open spec fn text(self) -> Seq<char> {
        match self {
            NumberError::Empty => "cannot parse integer from empty string"@,
            NumberError::InvalidDigit => "invalid digit found in string"@,
            NumberError::TooLarge => "number too large to fit in target type"@,
        }
    }

    /// Renders the error in words.
    pub fn to_string(&self) -> (r: String)
        ensures
            r@ == self.text(),
    {
        match self {
            NumberError::Empty => String::from_str("cannot parse integer from empty string"),
            NumberError::InvalidDigit => String::from_str("invalid digit found in string"),
            NumberError::TooLarge => String::from_str("number too large to fit in target type"),
        }
    }
}

/// The ten decimal digits.
pub open spec fn is_digit(c: char) -> bool {
    '0' <= c <= '9'
}

/// The number that a digit stands for.
pub open spec fn digit_value(c: char) -> nat {
    (c as int - '0' as int) as nat
}

/// The digit that stands for `d`, for `d` below ten.
pub open spec fn digit_char(d: nat) -> char {
    (d + '0' as nat) as char
}

/// Reads `s` digit by digit from the left, and stops at the first character
/// that is no digit or that takes the number above `max`.
pub open spec fn scan(s: Seq<char>, max: nat) -> Result<nat, NumberError>
    decreases s.len(),
{
    if s.len() == 0 {
        Ok(0)
    } else {
        match scan(s.drop_last(), max) {
            Err(e) => Err(e),
            Ok(v) => if !is_digit(s.last()) {
                Err(NumberError::InvalidDigit)
            } else if v * 10 + digit_value(s.last()) > max {
                Err(NumberError::TooLarge)
            } else {
                Ok(v * 10 + digit_value(s.last()))
            },
        }
    }
}

/// The number at most `max` that `s` denotes: digits, after an optional `+`.
pub open spec fn parse(s: Seq<char>, max: nat) -> Result<nat, NumberError> {
    if s.len() == 0 {
        Err(NumberError::Empty)
    } else if s == seq!['+'] || s == seq!['-'] {
        Err(NumberError::InvalidDigit)
    } else if s[0] == '+' {
        scan(s.skip(1), max)
    } else {
        scan(s, max)
    }
}

/// The decimal notation of `n`, without leading zeros.
pub open spec fn digits(n: nat) -> Seq<char>
    decreases n,
{
    if n < 10 {
        seq![digit_char(n)]
    } else {
        digits(n / 10).push(digit_char(n % 10))
    }
}

/// Once a prefix of `s` fails to scan, `s` fails in the same way.
pub proof fn lemma_scan_prefix(s: Seq<char>, k: int, max: nat)
    requires
        0 <= k <= s.len(),
        scan(s.take(k), max) is Err,
    ensures
        scan(s, max) == scan(s.take(k), max),
    decreases s.len() - k,
{
    if k < s.len() {
        assert(s.drop_last().take(k) =~= s.take(k));
        lemma_scan_prefix(s.drop_last(), k, max);
    } else {
        assert(s.take(k) =~= s);
    }
}

/// The notation of a number is made of digits, and reads back as the number.
pub proof fn lemma_digits(n: nat, max: nat)
    requires
        n <= max,
    ensures
        digits(n).len() > 0,
        forall|i: int| 0 <= i < digits(n).len() ==> is_digit(#[trigger] digits(n)[i]),
        scan(digits(n), max) == Ok::<nat, NumberError>(n),
        parse(digits(n), max) == Ok::<nat, NumberError>(n),
    decreases n,
{
    if n < 10 {
        let s = digits(n);
        assert(s.drop_last() =~= Seq::<char>::empty());
        assert(scan(s.drop_last(), max) == Ok::<nat, NumberError>(0));
        assert(s.last() == digit_char(n));
    } else {
        lemma_digits(n / 10, max);
        let s = digits(n);
        assert(s.drop_last() =~= digits(n / 10));
        assert(s.last() == digit_char(n % 10));
    }
}

/// Reads the digits of `s`.
fn scanned(s: &[char], max: u64) -> (r: Result<u64, NumberError>)
    ensures
        match r {
            Ok(v) => scan(s@, max as nat) == Ok::<nat, NumberError>(v as nat),
            Err(e) => scan(s@, max as nat) == Err::<nat, NumberError>(e),
        },
{
    let mut value: u64 = 0;
    let mut i: usize = 0;
    assert(s@.take(0) =~= Seq::<char>::empty());
    while i < s.len()
        invariant
            i <= s.len(),
            value <= max,
            scan(s@.take(i as int), max as nat) == Ok::<nat, NumberError>(value as nat),
        decreases s.len() - i,
    {
        let c = s[i];
        proof {
            assert(s@.take(i + 1).drop_last() =~= s@.take(i as int));
            assert(s@.take(i + 1).last() == c);
        }
        if !('0' <= c && c <= '9') {
            proof {
                lemma_scan_prefix(s@, i + 1, max as nat);
            }
            return Err(NumberError::InvalidDigit);
        }
        let d: u64 = (c as u8 - 48u8) as u64;
        if value > max / 10 || d > max - value * 10 {
            proof {
                lemma_scan_prefix(s@, i + 1, max as nat);
            }
            return Err(NumberError::TooLarge);
        }
        value = value * 10 + d;
        i += 1;
    }
    assert(s@.take(i as int) =~= s@);
    Ok(value)
}

/// Reads a number at most `max` in decimal notation: digits, after an
/// optional `+`.
pub fn parse_number(s: &[char], max: u64) -> (r: Result<u64, NumberError>)
    ensures
        match r {
            Ok(v) => parse(s@, max as nat) == Ok::<nat, NumberError>(v as nat),
            Err(e) => parse(s@, max as nat) == Err::<nat, NumberError>(e),
        },
{
    if s.len() == 0 {
        Err(NumberError::Empty)
    } else if s.len() == 1 && (s[0] == '+' || s[0] == '-') {
        assert(s@ =~= seq![s@[0]]);
        Err(NumberError::InvalidDigit)
    } else if s[0] == '+' {
        assert(s@ != seq!['+'] && s@ != seq!['-']);
        scanned(slice_subrange(s, 1, s.len()), max)
    } else {
        assert(s@ != seq!['+'] && s@ != seq!['-']) by {
            if s.len() == 1 {
                assert(seq!['+'][0] == '+');
                assert(seq!['-'][0] == '-');
            }
        }
        scanned(s, max)
    }
}

/// Appends the decimal notation of `n` to `s`.
pub fn push_number(s: &mut String, n: u64)
    ensures
        final(s)@ == old(s)@ + digits(n as nat),
    decreases n,
{
    if n >= 10 {
        push_number(s, n / 10);
    }
    let d: u8 = (n % 10) as u8;
    let c = (d + 48u8) as char;
    assert(c == digit_char((n % 10) as nat));
    s.push(c);
    proof {
        if n >= 10 {
            assert(old(s)@ + digits(n as nat / 10).push(c) =~= (old(s)@ + digits(n as nat / 10)).push(
                c,
            ));
        } else {
            assert(old(s)@ + seq![c] =~= old(s)@.push(c));
        }
    }
}

/// The decimal notation of `n`.
pub fn number_string(n: u64) -> (s: String)
    ensures
        s@ == digits(n as nat),
{
    let mut s = String::new();
    push_number(&mut s, n);
    assert(Seq::<char>::empty() + digits(n as nat) =~= digits(n as nat));
    s
}

} // verus!
