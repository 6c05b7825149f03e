//! Character-level helpers on strings: slash trimming and blank detection.

use vstd::prelude::*;
use vstd::string::*;

verus! {

/// `s` with every trailing `'/'` removed (what `trim_end_matches('/')` yields).
pub open spec fn trim_end_slashes(s: Seq<char>) -> Seq<char>
    decreases s.len(),
{
    if s.len() > 0 && s.last() == '/' {
        trim_end_slashes(s.drop_last())
    } else {
        s
    }
}

/// `s` with every leading `'/'` removed (what `trim_start_matches('/')` yields).
pub open spec fn trim_start_slashes(s: Seq<char>) -> Seq<char>
    decreases s.len(),
{
    if s.len() > 0 && s[0] == '/' {
        trim_start_slashes(s.drop_first())
    } else {
        s
    }
}

/// Removes all trailing slashes.
pub fn trim_end_slashes_str(s: &str) -> (r: &str)
    ensures
        r@ == trim_end_slashes(s@),
{
    let cs = chars_of(s);
    let n: usize = cs.len();
    let mut j: usize = n;
    assert(s@.subrange(0, n as int) =~= s@);
    while j > 0 && cs[j - 1] == '/'
        invariant
            j <= n,
            n == s@.len(),
            cs@ == s@,
            trim_end_slashes(s@) == trim_end_slashes(s@.subrange(0, j as int)),
        decreases j,
    {
        assert(s@.subrange(0, j as int).drop_last() =~= s@.subrange(0, j - 1));
        j = j - 1;
    }
    s.substring_char(0, j)
}

/// Removes all leading slashes.
pub fn trim_start_slashes_str(s: &str) -> (r: &str)
    ensures
        r@ == trim_start_slashes(s@),
{
    let cs = chars_of(s);
    let n: usize = cs.len();
    let mut i: usize = 0;
    assert(s@.subrange(0, n as int) =~= s@);
    while i < n && cs[i] == '/'
        invariant
            i <= n,
            n == s@.len(),
            cs@ == s@,
            trim_start_slashes(s@) == trim_start_slashes(s@.subrange(i as int, n as int)),
        decreases n - i,
    {
        assert(s@.subrange(i as int, n as int).drop_first() =~= s@.subrange(i + 1, n as int));
        i = i + 1;
    }
    s.substring_char(i, n)
}

/// The characters with the Unicode `White_Space` property, which
/// `char::is_whitespace` accepts and `str::trim` removes.
pub open spec fn is_white_space(c: char) -> bool {
    ||| '\t' <= c <= '\r'
    ||| c == ' '
    ||| c == '\u{85}'
    ||| c == '\u{a0}'
    ||| c == '\u{1680}'
    ||| '\u{2000}' <= c <= '\u{200a}'
    ||| c == '\u{2028}'
    ||| c == '\u{2029}'
    ||| c == '\u{202f}'
    ||| c == '\u{205f}'
    ||| c == '\u{3000}'
}

/// Nothing but white space is left of `s` once trimmed.
pub open spec fn is_blank(s: Seq<char>) -> bool {
    forall|i: int| 0 <= i < s.len() ==> is_white_space(#[trigger] s[i])
}

pub fn is_white_space_char(c: char) -> (r: bool)
    ensures
        r == is_white_space(c),
{
    ('\t' <= c && c <= '\r') || c == ' ' || c == '\u{85}' || c == '\u{a0}' || c == '\u{1680}'
        || ('\u{2000}' <= c && c <= '\u{200a}') || c == '\u{2028}' || c == '\u{2029}' || c
        == '\u{202f}' || c == '\u{205f}' || c == '\u{3000}'
}

/// Whether `s.trim()` is empty.
pub fn is_blank_str(s: &str) -> (r: bool)
    ensures
        r == is_blank(s@),
{
    let cs = chars_of(s);
    let n: usize = cs.len();
    let mut i: usize = 0;
    while i < n
        invariant
            i <= n,
            n == s@.len(),
            cs@ == s@,
            forall|j: int| 0 <= j < i ==> is_white_space(#[trigger] s@[j]),
        decreases n - i,
    {
        if !is_white_space_char(cs[i]) {
            return false;
        }
        i = i + 1;
    }
    true
}

/// The characters of ASCII bytes, one per byte.
pub open spec fn ascii_chars(bytes: Seq<u8>) -> Seq<char> {
    bytes.map_values(|b: u8| b as char)
}

/// All bytes are ASCII.
pub open spec fn all_ascii(bytes: Seq<u8>) -> bool {
    forall|i: int| 0 <= i < bytes.len() ==> #[trigger] bytes[i] < 128
}

/// `String::from_utf8` (std): bytes that are valid UTF-8 become the string
/// they encode; an ASCII byte encodes the character with its value. All
/// ASCII input is valid, so the error arm is never taken under `requires`.
#[verifier::external_body]
pub(crate) fn ascii_string(bytes: Vec<u8>) -> (s: String)
    requires
        all_ascii(bytes@),
    ensures
        s@ == ascii_chars(bytes@),
{
    String::from_utf8(bytes).unwrap_or_default()
}

/// `n` slashes.
pub open spec fn slashes(n: nat) -> Seq<char> {
    Seq::new(n, |i: int| '/')
}

/// Slashes added at the end are trimmed away with the rest.
pub proof fn lemma_trim_end_added_slashes(s: Seq<char>, n: nat)
    ensures
        trim_end_slashes(s + slashes(n)) == trim_end_slashes(s),
    decreases n,
{
    if n == 0 {
        assert(s + slashes(0) =~= s);
    } else {
        let t = s + slashes(n);
        assert(t.last() == '/');
        assert(t.drop_last() =~= s + slashes((n - 1) as nat));
        lemma_trim_end_added_slashes(s, (n - 1) as nat);
    }
}

/// Slashes added at the front are trimmed away with the rest.
pub proof fn lemma_trim_start_added_slashes(s: Seq<char>, n: nat)
    ensures
        trim_start_slashes(slashes(n) + s) == trim_start_slashes(s),
    decreases n,
{
    if n == 0 {
        assert(slashes(0) + s =~= s);
    } else {
        let t = slashes(n) + s;
        assert(t[0] == '/');
        assert(t.drop_first() =~= slashes((n - 1) as nat) + s);
        lemma_trim_start_added_slashes(s, (n - 1) as nat);
    }
}

/// What is left after trimming trailing slashes does not end with one.
pub proof fn lemma_trim_end_no_slash(s: Seq<char>)
    ensures
        trim_end_slashes(s).len() > 0 ==> trim_end_slashes(s).last() != '/',
    decreases s.len(),
{
    if s.len() > 0 && s.last() == '/' {
        lemma_trim_end_no_slash(s.drop_last());
    }
}

/// What is left after trimming leading slashes does not start with one.
pub proof fn lemma_trim_start_no_slash(s: Seq<char>)
    ensures
        trim_start_slashes(s).len() > 0 ==> trim_start_slashes(s)[0] != '/',
    decreases s.len(),
{
    if s.len() > 0 && s[0] == '/' {
        lemma_trim_start_no_slash(s.drop_first());
    }
}

/// The characters of `s`, in order.
pub fn chars_of(s: &str) -> (v: Vec<char>)
    ensures
        v@ == s@,
{
    broadcast use vstd::string::group_string_axioms;

    let mut v: Vec<char> = Vec::new();
    for c in it: s.chars()
        invariant
            it.seq() == s@,
            v@ == it.seq().take(it.index()),
    {
        v.push(c);
        assert(v@ =~= it.seq().take(it.index() + 1));
    }
    assert(v@ =~= s@);
    v
}

} // verus!
