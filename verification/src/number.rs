//! Unsigned numbers as text: reading and writing them in a radix.

use crate::text::slice;
use vstd::prelude::*;
use vstd::string::*;

verus! {

/// Why a text is not an unsigned number of the wanted width.
#[derive(Debug, Clone, Copy, PartialEq, Eq, Structural)]
pub enum IntError {
    /// There is no text at all.
    Empty,
    /// A character is not a digit of the radix.
    InvalidDigit,
    /// The digits stand for a number beyond the largest one.
    PosOverflow,
}

/// The words for an `IntError`.
pub open spec fn int_error_text(e: IntError) -> Seq<char> {
    match e {
        IntError::Empty => "cannot parse integer from empty string"@,
        IntError::InvalidDigit => "invalid digit found in string"@,
        IntError::PosOverflow => "number too large to fit in target type"@,
    }
}

impl IntError {
    /// The words for this error.
    pub fn message(&self) -> (r: String)
        ensures
            r@ == int_error_text(*self),
    {
        match self {
            IntError::Empty => "cannot parse integer from empty string".to_owned(),
            IntError::InvalidDigit => "invalid digit found in string".to_owned(),
            IntError::PosOverflow => "number too large to fit in target type".to_owned(),
        }
    }
}

/// What `c` is worth as a digit; 36 where it is a digit in no radix.
pub open spec fn digit_value(c: char) -> nat {
    if '0' <= c <= '9' {
        (c as int - '0' as int) as nat
    } else if 'a' <= c <= 'z' {
        (c as int - 'a' as int + 10) as nat
    } else if 'A' <= c <= 'Z' {
        (c as int - 'A' as int + 10) as nat
    } else {
        36
    }
}

/// How many characters at the start of `s` are digits of the radix.
pub open spec fn digit_run(s: Seq<char>, radix: nat) -> nat
    decreases s.len(),
{
    if s.len() > 0 && digit_value(s[0]) < radix {
        1 + digit_run(s.drop_first(), radix)
    } else {
        0
    }
}

/// The number that the digits `s` stand for.
pub open spec fn digits_value(s: Seq<char>, radix: nat) -> nat
    decreases s.len(),
{
    if s.len() == 0 {
        0
    } else {
        digits_value(s.drop_last(), radix) * radix + digit_value(s.last())
    }
}

/// `s` read as an unsigned number of at most `max`, with an optional `+` in
/// front. Where a character is not a digit and the digits in front of it are
/// already beyond `max`, the number is too large.
pub open spec fn number(s: Seq<char>, radix: nat, max: nat) -> Result<nat, IntError> {
    if s.len() == 0 {
        Err(IntError::Empty)
    } else if s.len() == 1 && s[0] == '+' {
        Err(IntError::InvalidDigit)
    } else {
        let d = if s[0] == '+' {
            s.drop_first()
        } else {
            s
        };
        let n = digit_run(d, radix) as int;
        if digits_value(d.take(n), radix) > max {
            Err(IntError::PosOverflow)
        } else if n < d.len() {
            Err(IntError::InvalidDigit)
        } else {
            Ok(digits_value(d, radix))
        }
    }
}

/// `s` as a decimal number of 16 bits.
pub open spec fn number_u16(s: Seq<char>) -> Result<u16, IntError> {
    match number(s, 10, 0xffff) {
        Ok(n) => Ok(n as u16),
        Err(e) => Err(e),
    }
}

/// `s` as a number of 32 bits.
pub open spec fn number_u32(s: Seq<char>, radix: nat) -> Result<u32, IntError> {
    match number(s, radix, 0xffff_ffff) {
        Ok(n) => Ok(n as u32),
        Err(e) => Err(e),
    }
}

/// The digit that is worth `d`.
pub open spec fn digit_char(d: nat) -> char {
    "0123456789abcdef"@[d as int]
}

/// `n` written in a radix, without leading zeros.
pub open spec fn digits(n: nat, radix: nat) -> Seq<char>
    decreases n,
{
    if n < radix || radix < 2 {
        seq![digit_char(n)]
    } else {
        proof {
            assert(n / radix < n) by (nonlinear_arith)
                requires
                    n >= radix,
                    radix >= 2,
            ;
        }
        digits(n / radix, radix).push(digit_char(n % radix))
    }
}

/// `n` in decimal.
pub open spec fn decimal(n: nat) -> Seq<char> {
    digits(n, 10)
}

fn char_value(c: char) -> (r: u64)
    ensures
        r == digit_value(c),
{
    if '0' <= c && c <= '9' {
        c as u64 - '0' as u64
    } else if 'a' <= c && c <= 'z' {
        c as u64 - 'a' as u64 + 10
    } else if 'A' <= c && c <= 'Z' {
        c as u64 - 'A' as u64 + 10
    } else {
        36
    }
}

/// The digits at the start of `s` are `n` where a text of digits ends there.
pub proof fn lemma_digit_run(s: Seq<char>, radix: nat, n: nat)
    requires
        n <= s.len(),
        forall|k: int| 0 <= k < n ==> digit_value(#[trigger] s[k]) < radix,
        n < s.len() ==> digit_value(s[n as int]) >= radix,
    ensures
        digit_run(s, radix) == n,
    decreases s.len(),
{
    if n > 0 {
        assert(digit_value(s[0]) < radix);
        assert forall|k: int| 0 <= k < n - 1 implies digit_value(
            #[trigger] s.drop_first()[k],
        ) < radix by {
            assert(s.drop_first()[k] == s[k + 1]);
        }
        lemma_digit_run(s.drop_first(), radix, (n - 1) as nat);
    }
}

proof fn lemma_digit_run_at_least(s: Seq<char>, radix: nat, n: nat)
    requires
        n <= s.len(),
        forall|k: int| 0 <= k < n ==> digit_value(#[trigger] s[k]) < radix,
    ensures
        n <= digit_run(s, radix) <= s.len(),
    decreases s.len(),
{
    if s.len() > 0 && digit_value(s[0]) < radix {
        let t = s.drop_first();
        let m = if n > 0 {
            (n - 1) as nat
        } else {
            0
        };
        assert forall|k: int| 0 <= k < m implies digit_value(#[trigger] t[k]) < radix by {
            assert(t[k] == s[k + 1]);
        }
        lemma_digit_run_at_least(t, radix, m);
    } else if n > 0 {
        assert(digit_value(s[0]) < radix);
    }
}

proof fn lemma_digits_value_grows(s: Seq<char>, radix: nat, n: int, m: int)
    requires
        0 <= n <= m <= s.len(),
        radix >= 1,
    ensures
        digits_value(s.take(n), radix) <= digits_value(s.take(m), radix),
    decreases m - n,
{
    if n < m {
        lemma_digits_value_grows(s, radix, n, m - 1);
        assert(s.take(m).drop_last() == s.take(m - 1));
        let v = digits_value(s.take(m - 1), radix);
        assert(v <= v * radix) by (nonlinear_arith)
            requires
                radix >= 1,
        ;
    }
}

/// Reads `s` as an unsigned number of at most `max`.
pub fn parse_number(s: &str, radix: u64, max: u64) -> (r: Result<u64, IntError>)
    requires
        2 <= radix <= 36,
        max <= 0xffff_ffff,
    ensures
        match number(s@, radix as nat, max as nat) {
            Ok(n) => r == Ok::<u64, IntError>(n as u64) && n <= max,
            Err(e) => r == Err::<u64, IntError>(e),
        },
{
    let cs = crate::text::chars(s);
    if cs.len() == 0 {
        return Err(IntError::Empty);
    }
    if cs.len() == 1 && cs[0] == '+' {
        return Err(IntError::InvalidDigit);
    }
    let start: usize = if cs[0] == '+' {
        1
    } else {
        0
    };
    let ghost d = if s@[0] == '+' {
        s@.drop_first()
    } else {
        s@
    };
    assert(d == s@.skip(start as int));
    let mut acc: u64 = 0;
    let mut i: usize = start;
    assert(d.take(0) == Seq::<char>::empty());
    while i < cs.len()
        invariant
            start <= i <= cs.len(),
            cs@ == s@,
            d == s@.skip(start as int),
            2 <= radix <= 36,
            acc <= max <= 0xffff_ffff,
            acc == digits_value(d.take(i - start), radix as nat),
            forall|k: int| 0 <= k < i - start ==> digit_value(#[trigger] d[k]) < radix,
            s@.len() > 0,
            !(s@.len() == 1 && s@[0] == '+'),
            d == (if s@[0] == '+' {
                s@.drop_first()
            } else {
                s@
            }),
        decreases cs.len() - i,
    {
        let v = char_value(cs[i]);
        let ghost k = i - start;
        assert(d[k] == s@[i as int]);
        if v >= radix {
            proof {
                lemma_digit_run(d, radix as nat, k as nat);
            }
            return Err(IntError::InvalidDigit);
        }
        assert(acc * radix <= 0xffff_ffff * 36) by (nonlinear_arith)
            requires
                acc <= 0xffff_ffff,
                radix <= 36,
        ;
        let next: u64 = acc * radix + v;
        assert(d.take(k + 1).drop_last() == d.take(k));
        assert(next == digits_value(d.take(k + 1), radix as nat));
        if next > max {
            proof {
                lemma_digit_run_at_least(d, radix as nat, (k + 1) as nat);
                lemma_digits_value_grows(
                    d,
                    radix as nat,
                    k + 1,
                    digit_run(d, radix as nat) as int,
                );
            }
            return Err(IntError::PosOverflow);
        }
        acc = next;
        i += 1;
    }
    proof {
        lemma_digit_run(d, radix as nat, d.len());
        assert(d.take(d.len() as int) == d);
    }
    Ok(acc)
}

/// Reads `s` as a decimal number of 16 bits.
pub fn parse_u16(s: &str) -> (r: Result<u16, IntError>)
    ensures
        r == number_u16(s@),
{
    match parse_number(s, 10, 0xffff) {
        Ok(n) => Ok(n as u16),
        Err(e) => Err(e),
    }
}

/// Reads `s` as a number of 32 bits.
pub fn parse_u32(s: &str, radix: u64) -> (r: Result<u32, IntError>)
    requires
        2 <= radix <= 36,
    ensures
        r == number_u32(s@, radix as nat),
{
    match parse_number(s, radix, 0xffff_ffff) {
        Ok(n) => Ok(n as u32),
        Err(e) => Err(e),
    }
}

/// Writes `n` in a radix, without leading zeros.
pub fn format_number(n: u32, radix: u32) -> (r: String)
    requires
        2 <= radix <= 16,
    ensures
        r@ == digits(n as nat, radix as nat),
    decreases n,
{
    proof {
        reveal_strlit("0123456789abcdef");
    }
    if n < radix {
        let r = slice("0123456789abcdef", n as usize, n as usize + 1);
        assert(r@ == seq![digit_char(n as nat)]);
        r
    } else {
        assert(n / radix < n) by (nonlinear_arith)
            requires
                n >= radix,
                radix >= 2,
        ;
        let d: usize = (n % radix) as usize;
        let mut r = format_number(n / radix, radix);
        let ghost head = r@;
        let last = slice("0123456789abcdef", d, d + 1);
        assert(last@ == seq![digit_char(d as nat)]);
        r.append(last.as_str());
        assert(r@ == head.push(digit_char(d as nat)));
        r
    }
}

/// Writes `n` in decimal.
pub fn format_decimal(n: u32) -> (r: String)
    ensures
        r@ == decimal(n as nat),
{
    format_number(n, 10)
}

proof fn lemma_digit_char(d: nat)
    requires
        d < 16,
    ensures
        digit_value(digit_char(d)) == d,
        digit_char(d) != '+',
{
    reveal_strlit("0123456789abcdef");
}

/// What is written in a radix are digits of that radix, without a sign, and they
/// are worth what was written.
pub proof fn lemma_digits(n: nat, radix: nat)
    requires
        2 <= radix <= 16,
    ensures
        digits(n, radix).len() > 0,
        forall|k: int|
            0 <= k < digits(n, radix).len() ==> digit_value(#[trigger] digits(n, radix)[k]) < radix,
        digits_value(digits(n, radix), radix) == n,
        digits(n, radix)[0] != '+',
    decreases n,
{
    let s = digits(n, radix);
    if n < radix {
        lemma_digit_char(n);
        assert(s.drop_last() == Seq::<char>::empty());
        assert(digits_value(s.drop_last(), radix) == 0);
        assert(0 * radix == 0);
    } else {
        assert(n / radix < n) by (nonlinear_arith)
            requires
                n >= radix,
                radix >= 2,
        ;
        lemma_digits(n / radix, radix);
        lemma_digit_char(n % radix);
        assert(s.drop_last() == digits(n / radix, radix));
        assert((n / radix) * radix + n % radix == n) by (nonlinear_arith)
            requires
                radix >= 2,
        ;
        assert forall|k: int| 0 <= k < s.len() implies digit_value(#[trigger] s[k]) < radix by {
            if k < s.len() - 1 {
                assert(s[k] == digits(n / radix, radix)[k]);
            }
        }
        assert(s[0] == digits(n / radix, radix)[0]);
    }
}

/// Reading gives back what writing wrote: a number written in a radix of at
/// most 16 and read in the same radix is that number again, wherever it is not
/// beyond the largest one.
pub proof fn written_number_reads_back(n: nat, radix: nat, max: nat)
    requires
        2 <= radix <= 16,
        n <= max,
    ensures
        number(digits(n, radix), radix, max) == Ok::<nat, IntError>(n),
{
    let s = digits(n, radix);
    lemma_digits(n, radix);
    lemma_digit_run(s, radix, s.len());
    assert(s.take(s.len() as int) == s);
}

} // verus!
