//! Random credentials: strong passwords and lower case identifiers.

use vstd::prelude::*;
use crate::random::{choose_byte, random_index, shuffle_bytes, thread_rng};
use crate::text::{all_ascii, ascii_chars, ascii_string};

verus! {

broadcast use vstd::seq_lib::group_to_multiset_ensures;

pub open spec fn is_lower(c: char) -> bool {
    'a' <= c <= 'z'
}

pub open spec fn is_upper(c: char) -> bool {
    'A' <= c <= 'Z'
}

pub open spec fn is_digit(c: char) -> bool {
    '0' <= c <= '9'
}

/// The symbols a password may hold: `!@#$%^&*()-_=+[]{};:,.?/`.
pub open spec fn is_symbol(c: char) -> bool {
    ||| c == '!'
    ||| c == '@'
    ||| c == '#'
    ||| c == '$'
    ||| c == '%'
    ||| c == '^'
    ||| c == '&'
    ||| c == '*'
    ||| c == '('
    ||| c == ')'
    ||| c == '-'
    ||| c == '_'
    ||| c == '='
    ||| c == '+'
    ||| c == '['
    ||| c == ']'
    ||| c == '{'
    ||| c == '}'
    ||| c == ';'
    ||| c == ':'
    ||| c == ','
    ||| c == '.'
    ||| c == '?'
    ||| c == '/'
}

/// The characters a password is drawn from.
pub open spec fn is_password_char(c: char) -> bool {
    is_lower(c) || is_upper(c) || is_digit(c) || is_symbol(c)
}

/// `p` has `length` characters, all from the password alphabet, and at
/// least one lower case letter, one upper case letter, one digit and one
/// symbol.
pub open spec fn is_strong_password(p: Seq<char>, length: nat) -> bool {
    &&& p.len() == length
    &&& forall|i: int| 0 <= i < p.len() ==> is_password_char(#[trigger] p[i])
    &&& exists|i: int| 0 <= i < p.len() && is_lower(#[trigger] p[i])
    &&& exists|i: int| 0 <= i < p.len() && is_upper(#[trigger] p[i])
    &&& exists|i: int| 0 <= i < p.len() && is_digit(#[trigger] p[i])
    &&& exists|i: int| 0 <= i < p.len() && is_symbol(#[trigger] p[i])
}

/// The bytes `first`, `first + 1`, ... (`count` of them).
fn byte_run(first: u8, count: u8) -> (v: Vec<u8>)
    requires
        first + count <= 128,
    ensures
        v@.len() == count,
        forall|i: int| 0 <= i < count ==> v@[i] == first + i,
{
    let mut v: Vec<u8> = Vec::new();
    let mut k: u8 = 0;
    while k < count
        invariant
            k <= count,
            first + count <= 128,
            v@.len() == k,
            forall|i: int| 0 <= i < k ==> v@[i] == first + i,
        decreases count - k,
    {
        v.push(first + k);
        k = k + 1;
    }
    v
}

/// The symbol bytes, in the order `!@#$%^&*()-_=+[]{};:,.?/`.
fn symbol_bytes() -> (v: Vec<u8>)
    ensures
        v@.len() == 24,
        forall|i: int| 0 <= i < v@.len() ==> is_symbol(#[trigger] v@[i] as char),
{
    let v: Vec<u8> = vec![
        33u8, 64, 35, 36, 37, 94, 38, 42, 40, 41, 45, 95, 61, 43, 91, 93, 123, 125, 59, 58, 44,
        46, 63, 47,
    ];
    v
}

/// `dst` followed by `src`.
fn append_bytes(dst: &mut Vec<u8>, src: &Vec<u8>)
    ensures
        final(dst)@ == old(dst)@ + src@,
{
    let ghost start = dst@;
    let mut i: usize = 0;
    while i < src.len()
        invariant
            i <= src@.len(),
            dst@ == start + src@.take(i as int),
        decreases src@.len() - i,
    {
        dst.push(src[i]);
        i = i + 1;
        assert(dst@ =~= start + src@.take(i as int));
    }
    assert(src@.take(i as int) =~= src@);
}

/// One byte of `items`, which must not be empty.
fn pick(items: &Vec<u8>, rng: &mut rand::rngs::ThreadRng) -> (b: u8)
    requires
        items@.len() > 0,
    ensures
        items@.contains(b),
{
    match choose_byte(items.as_slice(), rng) {
        Some(b) => b,
        None => vstd::pervasive::unreached(),
    }
}

/// A random password of `length` characters holding at least one lower case
/// letter, one upper case letter, one digit and one symbol; refused below
/// twelve characters.
pub fn generate_strong_password(length: usize) -> (r: Result<String, &'static str>)
    ensures
        length < 12 ==> (r matches Err(m) && m@ == "length must be at least 12"@),
        length >= 12 ==> (r matches Ok(p) && is_strong_password(p@, length as nat)),
{
    if length < 12 {
        return Err("length must be at least 12");
    }
    let lower = byte_run(97, 26);
    let upper = byte_run(65, 26);
    let digits = byte_run(48, 10);
    let symbols = symbol_bytes();
    let mut all: Vec<u8> = Vec::new();
    append_bytes(&mut all, &lower);
    append_bytes(&mut all, &upper);
    append_bytes(&mut all, &digits);
    append_bytes(&mut all, &symbols);
    assert forall|i: int| 0 <= i < all@.len() implies is_password_char(#[trigger] all@[i] as char) by {
        if i < 26 {
            assert(all@[i] == lower@[i]);
        } else if i < 52 {
            assert(all@[i] == upper@[i - 26]);
        } else if i < 62 {
            assert(all@[i] == digits@[i - 52]);
        } else {
            assert(all@[i] == symbols@[i - 62]);
        }
    }

    let mut rng = thread_rng();
    let mut pwd: Vec<u8> = Vec::new();
    let a: u8 = pick(&lower, &mut rng);
    let b: u8 = pick(&upper, &mut rng);
    let c: u8 = pick(&digits, &mut rng);
    let d: u8 = pick(&symbols, &mut rng);
    pwd.push(a);
    pwd.push(b);
    pwd.push(c);
    pwd.push(d);

    let fill: usize = length - 4;
    let mut k: usize = 0;
    while k < fill
        invariant
            k <= fill,
            fill == length - 4,
            pwd@.len() == 4 + k,
            all@.len() == 86,
            forall|i: int| 0 <= i < all@.len() ==> is_password_char(#[trigger] all@[i] as char),
            forall|i: int| 0 <= i < pwd@.len() ==> is_password_char(#[trigger] pwd@[i] as char),
            is_lower(pwd@[0] as char),
            is_upper(pwd@[1] as char),
            is_digit(pwd@[2] as char),
            is_symbol(pwd@[3] as char),
        decreases fill - k,
    {
        let idx: usize = random_index(&mut rng, all.len());
        pwd.push(all[idx]);
        k = k + 1;
    }

    let ghost before = pwd@;
    shuffle_bytes(&mut pwd, &mut rng);
    let ghost after = pwd@;
    assert(after.len() == before.len()) by {
        assert(after.to_multiset().len() == before.to_multiset().len());
    }
    assert forall|i: int| 0 <= i < after.len() implies is_password_char(#[trigger] after[i] as char) by {
        assert(after.contains(after[i]));
        assert(after.to_multiset().count(after[i]) > 0);
        assert(before.contains(after[i]));
    }
    assert(all_ascii(after));
    let p = ascii_string(pwd);
    assert(p@ == ascii_chars(after));
    assert forall|i: int| 0 <= i < p@.len() implies is_password_char(#[trigger] p@[i]) by {
        assert(p@[i] == after[i] as char);
    }
    assert forall|j: int| 0 <= j < 4 implies after.contains(#[trigger] before[j]) by {
        assert(before.contains(before[j]));
        assert(before.to_multiset().count(before[j]) > 0);
        assert(after.contains(before[j]));
    }
    let ghost i0 = choose|i: int| 0 <= i < after.len() && after[i] == before[0];
    let ghost i1 = choose|i: int| 0 <= i < after.len() && after[i] == before[1];
    let ghost i2 = choose|i: int| 0 <= i < after.len() && after[i] == before[2];
    let ghost i3 = choose|i: int| 0 <= i < after.len() && after[i] == before[3];
    assert(is_lower(p@[i0]));
    assert(is_upper(p@[i1]));
    assert(is_digit(p@[i2]));
    assert(is_symbol(p@[i3]));
    Ok(p)
}

/// A random identifier of `length` lower case ASCII letters.
pub fn generate_random_lower_id(length: usize) -> (r: String)
    ensures
        r@.len() == length,
        forall|i: int| 0 <= i < r@.len() ==> is_lower(#[trigger] r@[i]),
{
    let charset = byte_run(97, 26);
    let mut rng = thread_rng();
    let mut out: Vec<u8> = Vec::new();
    while out.len() < length
        invariant
            out@.len() <= length,
            charset@.len() == 26,
            forall|i: int| 0 <= i < 26 ==> charset@[i] == 97 + i,
            forall|i: int| 0 <= i < out@.len() ==> is_lower(#[trigger] out@[i] as char),
        decreases length - out@.len(),
    {
        let b: u8 = pick(&charset, &mut rng);
        out.push(b);
    }
    assert(all_ascii(out@));
    let s = ascii_string(out);
    assert forall|i: int| 0 <= i < s@.len() implies is_lower(#[trigger] s@[i]) by {
        assert(s@[i] == out@[i] as char);
    }
    s
}

} // verus!
