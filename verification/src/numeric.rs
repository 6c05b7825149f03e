//! Decimal text of integers: writing a `u64` and reading an `i64` the way
//! `to_string` and `str::parse::<i64>` do.

use vstd::prelude::*;
use vstd::string::*;
use crate::text::{all_ascii, ascii_chars, ascii_string};

verus! {

/// The ASCII digit for `d` (below ten).
pub open spec fn digit_char(d: nat) -> char {
    (48 + d) as char
}

/// The decimal notation of `n`, without sign or leading zeros.
pub open spec fn decimal(n: nat) -> Seq<char>
    decreases n,
{
    if n < 10 {
        seq![digit_char(n)]
    } else {
        decimal(n / 10).push(digit_char(n % 10))
    }
}

/// Appends the decimal digits of `n` to `out`.
fn push_decimal(n: u64, out: &mut Vec<u8>)
    requires
        all_ascii(old(out)@),
    ensures
        all_ascii(final(out)@),
        ascii_chars(final(out)@) == ascii_chars(old(out)@) + decimal(n as nat),
    decreases n,
{
    let ghost start = out@;
    if n >= 10 {
        push_decimal(n / 10, out);
    }
    let ghost mid = out@;
    out.push(48 + (n % 10) as u8);
    assert(ascii_chars(out@) =~= ascii_chars(mid).push(digit_char((n % 10) as nat)));
    if n >= 10 {
        assert(ascii_chars(out@) =~= ascii_chars(start) + decimal(n as nat));
    } else {
        assert(mid == start);
        assert(ascii_chars(out@) =~= ascii_chars(start) + decimal(n as nat));
    }
}

/// The decimal text of `n` (what `n.to_string()` gives).
pub fn u64_to_decimal(n: u64) -> (r: String)
    ensures
        r@ == decimal(n as nat),
{
    let mut digits: Vec<u8> = Vec::new();
    assert(ascii_chars(digits@) =~= Seq::<char>::empty());
    push_decimal(n, &mut digits);
    assert(ascii_chars(digits@) =~= decimal(n as nat));
    ascii_string(digits)
}

/// Why a text is not an `i64`, as `std::num::IntErrorKind` tells it.
#[derive(Debug, Clone, Copy, PartialEq, Eq)]
pub enum IntErrorKind {
    /// The text is empty.
    Empty,
    /// The text holds a character that is not a digit where one is needed.
    InvalidDigit,
    /// The value is above `i64::MAX`.
    PosOverflow,
    /// The value is below `i64::MIN`.
    NegOverflow,
}

impl IntErrorKind {
    /// The text that `ParseIntError` displays for this kind.
    pub open spec fn message_spec(self) -> Seq<char> {
        match self {
            IntErrorKind::Empty => "cannot parse integer from empty string"@,
            IntErrorKind::InvalidDigit => "invalid digit found in string"@,
            IntErrorKind::PosOverflow => "number too large to fit in target type"@,
            IntErrorKind::NegOverflow => "number too small to fit in target type"@,
        }
    }

    pub fn message(&self) -> (r: &'static str)
        ensures
            r@ == self.message_spec(),
    {
        match self {
            IntErrorKind::Empty => "cannot parse integer from empty string",
            IntErrorKind::InvalidDigit => "invalid digit found in string",
            IntErrorKind::PosOverflow => "number too large to fit in target type",
            IntErrorKind::NegOverflow => "number too small to fit in target type",
        }
    }
}

pub open spec fn is_digit_byte(b: u8) -> bool {
    48 <= b <= 57
}

pub open spec fn all_digits(s: Seq<u8>) -> bool {
    forall|i: int| 0 <= i < s.len() ==> is_digit_byte(#[trigger] s[i])
}

/// The value of a run of ASCII digits, most significant first.
pub open spec fn digits_value(s: Seq<u8>) -> nat
    decreases s.len(),
{
    if s.len() == 0 {
        0
    } else {
        digits_value(s.drop_last()) * 10 + (s.last() - 48) as nat
    }
}

/// Some run of digits at the front of `s` is already worth more than `limit`:
/// reading `s` digit by digit overflows before it meets anything else.
pub open spec fn overflows(s: Seq<u8>, limit: nat) -> bool {
    exists|k: int|
        0 <= k <= s.len() && all_digits(#[trigger] s.take(k)) && digits_value(s.take(k)) > limit
}

/// The magnitude of a signed value read from `digits`: an overflow, a
/// non-digit, or the value.
pub open spec fn read_magnitude(digits: Seq<u8>, limit: nat, overflow: IntErrorKind) -> Result<
    nat,
    IntErrorKind,
> {
    if overflows(digits, limit) {
        Err(overflow)
    } else if !all_digits(digits) {
        Err(IntErrorKind::InvalidDigit)
    } else {
        Ok(digits_value(digits))
    }
}

/// What `str::parse::<i64>` gives for text whose UTF-8 bytes are `b`: an
/// optional `+` or `-`, then decimal digits, within the range of `i64`.
pub open spec fn parse_i64_spec(b: Seq<u8>) -> Result<i64, IntErrorKind> {
    if b.len() == 0 {
        Err(IntErrorKind::Empty)
    } else if (b[0] == 43 || b[0] == 45) && b.len() == 1 {
        Err(IntErrorKind::InvalidDigit)
    } else if b[0] == 45 {
        match read_magnitude(b.drop_first(), 9223372036854775808, IntErrorKind::NegOverflow) {
            Ok(v) => Ok((0 - v) as i64),
            Err(e) => Err(e),
        }
    } else {
        let digits = if b[0] == 43 {
            b.drop_first()
        } else {
            b
        };
        match read_magnitude(digits, 9223372036854775807, IntErrorKind::PosOverflow) {
            Ok(v) => Ok(v as i64),
            Err(e) => Err(e),
        }
    }
}

/// A longer run of digits is worth at least as much as its prefix.
proof fn lemma_digits_value_monotone(s: Seq<u8>, k: int, m: int)
    requires
        0 <= k <= m <= s.len(),
        all_digits(s.take(m)),
    ensures
        digits_value(s.take(k)) <= digits_value(s.take(m)),
    decreases m - k,
{
    if k < m {
        assert(s.take(m).drop_last() =~= s.take(m - 1));
        assert(all_digits(s.take(m - 1)));
        lemma_digits_value_monotone(s, k, m - 1);
    }
}

/// Reads the digits `b[start..]` as a magnitude of at most `limit`.
fn read_digits(b: &[u8], start: usize, limit: u64, overflow: IntErrorKind) -> (r: Result<
    u64,
    IntErrorKind,
>)
    requires
        start <= b@.len(),
    ensures
        r matches Ok(v) ==> v <= limit,
        r matches Ok(v) ==> read_magnitude(b@.skip(start as int), limit as nat, overflow) == Ok::<
            nat,
            IntErrorKind,
        >(v as nat),
        r matches Err(e) ==> read_magnitude(b@.skip(start as int), limit as nat, overflow) == Err::<
            nat,
            IntErrorKind,
        >(e),
{
    let ghost d = b@.skip(start as int);
    let n: usize = b.len();
    let mut acc: u64 = 0;
    let mut i: usize = start;
    assert(d.take(0) =~= Seq::<u8>::empty());
    while i < n
        invariant
            start <= i <= n,
            n == b@.len(),
            d == b@.skip(start as int),
            all_digits(d.take(i - start)),
            acc as nat == digits_value(d.take(i - start)),
            acc <= limit,
        decreases n - i,
    {
        let c: u8 = b[i];
        let ghost j: int = i - start;
        if c < 48 || c > 57 {
            assert(d[j] == c);
            assert(!all_digits(d));
            assert(!overflows(d, limit as nat)) by {
                assert forall|k: int|
                    0 <= k <= d.len() && all_digits(#[trigger] d.take(k)) implies digits_value(
                    d.take(k),
                ) <= limit by {
                    if k > j {
                        assert(d.take(k)[j] == d[j]);
                    }
                    assert(k <= j);
                    assert(d.take(j) =~= d.take(j).take(k).add(d.take(j).skip(k)));
                    assert(d.take(j).take(k) =~= d.take(k));
                    lemma_digits_value_monotone(d.take(j), k, j);
                    assert(d.take(j).take(j) =~= d.take(j));
                }
            }
            return Err(IntErrorKind::InvalidDigit);
        }
        let next: u128 = (acc as u128) * 10 + ((c - 48) as u128);
        assert(d.take(j + 1).drop_last() =~= d.take(j));
        assert(d.take(j + 1).last() == c);
        assert(all_digits(d.take(j + 1)));
        assert(next == digits_value(d.take(j + 1)));
        if next > limit as u128 {
            assert(overflows(d, limit as nat));
            return Err(overflow);
        }
        acc = next as u64;
        i = i + 1;
    }
    assert(d.take(i - start) =~= d);
    assert(!overflows(d, limit as nat)) by {
        assert forall|k: int|
            0 <= k <= d.len() && all_digits(#[trigger] d.take(k)) implies digits_value(d.take(k))
            <= limit by {
            lemma_digits_value_monotone(d, k, d.len() as int);
        }
    }
    Ok(acc)
}

/// Reads `s` as an `i64` (what `s.parse::<i64>()` gives).
pub fn parse_i64(s: &str) -> (r: Result<i64, IntErrorKind>)
    ensures
        r == parse_i64_spec(s.spec_bytes()),
{
    let b = s.as_bytes();
    let n: usize = b.len();
    if n == 0 {
        return Err(IntErrorKind::Empty);
    }
    let first: u8 = b[0];
    if (first == 43 || first == 45) && n == 1 {
        return Err(IntErrorKind::InvalidDigit);
    }
    if first == 45 {
        assert(b@.skip(1) =~= b@.drop_first());
        match read_digits(b, 1, 9223372036854775808, IntErrorKind::NegOverflow) {
            Ok(v) => {
                if v == 9223372036854775808 {
                    Ok(i64::MIN)
                } else {
                    Ok(0 - (v as i64))
                }
            },
            Err(e) => Err(e),
        }
    } else {
        let start: usize = if first == 43 {
            1
        } else {
            0
        };
        assert(b@.skip(1) =~= b@.drop_first());
        assert(b@.skip(0) =~= b@);
        match read_digits(b, start, 9223372036854775807, IntErrorKind::PosOverflow) {
            Ok(v) => Ok(v as i64),
            Err(e) => Err(e),
        }
    }
}

/// Every character of a decimal notation is an ASCII digit.
proof fn lemma_decimal_digits(n: nat)
    ensures
        forall|i: int| 0 <= i < decimal(n).len() ==> '0' <= #[trigger] decimal(n)[i] <= '9',
    decreases n,
{
    if n < 10 {
        assert(decimal(n)[0] == digit_char(n));
    } else {
        lemma_decimal_digits(n / 10);
        let p = decimal(n / 10);
        assert forall|i: int| 0 <= i < decimal(n).len() implies '0' <= #[trigger] decimal(n)[i]
            <= '9' by {
            if i < p.len() {
                assert(decimal(n)[i] == p[i]);
            } else {
                assert(decimal(n)[i] == digit_char(n % 10));
            }
        }
    }
}

/// The digits of a decimal notation are worth the number noted.
proof fn lemma_decimal_value(n: nat)
    ensures
        digits_value(decimal(n).map_values(|c: char| c as u8)) == n,
    decreases n,
{
    let b = decimal(n).map_values(|c: char| c as u8);
    let d: nat = (n % 10) as nat;
    assert(digit_char(d) as u8 == 48 + d);
    if n < 10 {
        assert(b.drop_last() =~= Seq::<u8>::empty());
        assert(b.last() == digit_char(d) as u8);
        assert(digits_value(b) == digits_value(b.drop_last()) * 10 + (b.last() - 48) as nat);
    } else {
        lemma_decimal_value(n / 10);
        assert(b.drop_last() =~= decimal(n / 10).map_values(|c: char| c as u8));
        assert(b.last() == digit_char(d) as u8);
        assert(digits_value(b) == digits_value(b.drop_last()) * 10 + (b.last() - 48) as nat);
        assert(digits_value(b.drop_last()) == n / 10);
        assert((n / 10) * 10 + d == n);
    }
}

/// The decimal notation of `n` is the canonical one: at least one
/// character, all ASCII digits, worth `n`, and without a leading zero unless
/// it is the single digit `0`.
pub proof fn lemma_decimal_canonical(n: nat)
    ensures
        decimal(n).len() >= 1,
        forall|i: int| 0 <= i < decimal(n).len() ==> '0' <= #[trigger] decimal(n)[i] <= '9',
        digits_value(decimal(n).map_values(|c: char| c as u8)) == n,
        n >= 1 ==> decimal(n)[0] != '0',
        decimal(n)[0] == '0' ==> decimal(n).len() == 1 && n == 0,
    decreases n,
{
    lemma_decimal_digits(n);
    lemma_decimal_value(n);
    if n >= 10 {
        lemma_decimal_canonical(n / 10);
        assert(decimal(n)[0] == decimal(n / 10)[0]);
    } else {
        assert(decimal(n)[0] == digit_char(n));
    }
}

/// Reading back: text that notes a value `n <= i64::MAX` in decimal, as
/// `u64_to_decimal` writes it, reads as `n`.
pub proof fn lemma_decimal_reads_back(n: u64, s: &str)
    requires
        n <= i64::MAX,
        s@ == decimal(n as nat),
    ensures
        parse_i64_spec(s.spec_bytes()) == Ok::<i64, IntErrorKind>(n as i64),
{
    broadcast use vstd::utf8::is_ascii_chars_encode_utf8;

    let c = s@;
    lemma_decimal_digits(n as nat);
    assert(vstd::utf8::is_ascii_chars(c)) by {
        assert forall|i: int| 0 <= i < c.len() implies '\0' <= #[trigger] c[i] <= '\u{7f}' by {
            assert('0' <= c[i] <= '9');
        }
    }
    let b = s.spec_bytes();
    assert(b == vstd::utf8::encode_utf8(c));
    let m = c.map_values(|x: char| x as u8);
    assert(b =~= m);
    lemma_decimal_value(n as nat);
    assert(all_digits(b)) by {
        assert forall|i: int| 0 <= i < b.len() implies is_digit_byte(#[trigger] b[i]) by {
            assert('0' <= c[i] <= '9');
            assert(b[i] == c[i] as u8);
        }
    }
    assert(b.len() > 0);
    assert('0' <= c[0] <= '9');
    assert(b[0] == c[0] as u8);
    assert(b[0] != 43 && b[0] != 45);
    assert(!overflows(b, 9223372036854775807)) by {
        assert forall|k: int|
            0 <= k <= b.len() && all_digits(#[trigger] b.take(k)) implies digits_value(b.take(k))
            <= 9223372036854775807 by {
            assert(b.take(b.len() as int) =~= b);
            lemma_digits_value_monotone(b, k, b.len() as int);
        }
    }
}

/// The decimal notation of a signed value: a `-` before the digits of a
/// negative one (what `to_string` gives for an `i64`).
pub open spec fn signed_decimal(n: int) -> Seq<char> {
    if n < 0 {
        "-"@ + decimal((0 - n) as nat)
    } else {
        decimal(n as nat)
    }
}

/// Reading back, for every `i64`: the decimal text of `n`, with its sign,
/// reads as `n`.
pub proof fn lemma_signed_decimal_reads_back(n: i64, s: &str)
    requires
        s@ == signed_decimal(n as int),
    ensures
        parse_i64_spec(s.spec_bytes()) == Ok::<i64, IntErrorKind>(n),
{
    broadcast use vstd::utf8::is_ascii_chars_encode_utf8;

    reveal_strlit("-");
    let m: nat = if n < 0 {
        (0 - n) as nat
    } else {
        n as nat
    };
    let c = s@;
    let dg = decimal(m);
    lemma_decimal_digits(m);
    lemma_decimal_value(m);
    let body: Seq<char> = if n < 0 {
        c.drop_first()
    } else {
        c
    };
    assert(body =~= dg);
    assert(vstd::utf8::is_ascii_chars(c)) by {
        assert forall|i: int| 0 <= i < c.len() implies '\0' <= #[trigger] c[i] <= '\u{7f}' by {
            if n < 0 && i == 0 {
                assert(c[0] == '-');
            } else if n < 0 {
                assert(c[i] == dg[i - 1]);
                assert('0' <= dg[i - 1] <= '9');
            } else {
                assert('0' <= dg[i] <= '9');
            }
        }
    }
    let b = s.spec_bytes();
    assert(b == vstd::utf8::encode_utf8(c));
    let db: Seq<u8> = if n < 0 {
        b.drop_first()
    } else {
        b
    };
    assert(db =~= dg.map_values(|x: char| x as u8)) by {
        assert forall|i: int| 0 <= i < db.len() implies db[i] == dg[i] as u8 by {
            if n < 0 {
                assert(db[i] == b[i + 1]);
                assert(b[i + 1] == c[i + 1] as u8);
                assert(c[i + 1] == dg[i]);
            } else {
                assert(b[i] == c[i] as u8);
            }
        }
    }
    assert(all_digits(db)) by {
        assert forall|i: int| 0 <= i < db.len() implies is_digit_byte(#[trigger] db[i]) by {
            assert('0' <= dg[i] <= '9');
            assert(db[i] == dg[i] as u8);
        }
    }
    assert(digits_value(db) == m);
    assert(db.len() > 0);
    let limit: nat = if n < 0 {
        9223372036854775808
    } else {
        9223372036854775807
    };
    assert(!overflows(db, limit)) by {
        assert forall|k: int|
            0 <= k <= db.len() && all_digits(#[trigger] db.take(k)) implies digits_value(db.take(k))
            <= limit by {
            assert(db.take(db.len() as int) =~= db);
            lemma_digits_value_monotone(db, k, db.len() as int);
        }
    }
    if n < 0 {
        assert(b[0] == c[0] as u8);
        assert(c[0] == '-');
        assert(b[0] == 45);
        assert(b.len() > 1);
    } else {
        assert(b[0] == c[0] as u8);
        assert('0' <= c[0] <= '9');
        assert(b[0] != 43 && b[0] != 45);
    }
}

} // verus!
