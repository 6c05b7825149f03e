//! The decisions of the sign-up flow: which mail carries the verification
//! code, where the code is in it, and what is kept of the new account.

use vstd::prelude::*;
use crate::text::chars_of;

verus! {

/// The subject text that marks a verification mail.
pub const CODE_SUBJECT: &'static str = "ChatGPT验证码";

/// A verification code: six digits standing alone, neither preceded by a
/// word character or `#` nor followed by a word character.
pub const CODE_PATTERN: &'static str = "(?:^|[^\\w#])(\\d{6})(?:[^\\w]|$)";

/// `needle` occurs somewhere in `hay`.
pub open spec fn contains_text(hay: Seq<char>, needle: Seq<char>) -> bool {
    exists|i: int|
        0 <= i && i + needle.len() <= hay.len() && #[trigger] hay.subrange(i, i + needle.len())
            == needle
}

/// Whether `needle` occurs in `hay` (what `hay.find(needle).is_some()` tells).
pub fn contains_str(hay: &str, needle: &str) -> (r: bool)
    ensures
        r == contains_text(hay@, needle@),
{
    let h = chars_of(hay);
    let n = chars_of(needle);
    if n.len() == 0 {
        assert(hay@.subrange(0, 0int + needle@.len()) =~= needle@);
        return true;
    }
    if n.len() > h.len() {
        return false;
    }
    let hl: usize = h.len();
    let count: usize = hl - n.len() + 1;
    let mut i: usize = 0;
    while i < count
        invariant
            h@ == hay@,
            n@ == needle@,
            1 <= n@.len() <= h@.len(),
            count == h@.len() - n@.len() + 1,
            hl == h@.len(),
            i <= count,
            forall|k: int| 0 <= k < i ==> #[trigger] hay@.subrange(k, k + needle@.len()) != needle@,
        decreases count - i,
    {
        let mut j: usize = 0;
        while j < n.len() && h[i + j] == n[j]
            invariant
                h@ == hay@,
                n@ == needle@,
                1 <= n@.len() <= h@.len(),
                i < count,
                i + n@.len() <= h@.len(),
                hl == h@.len(),
                count == h@.len() - n@.len() + 1,
                j <= n@.len(),
                forall|m: int| 0 <= m < j ==> h@[i + m] == n@[m],
            decreases n@.len() - j,
        {
            j = j + 1;
        }
        if j == n.len() {
            assert(hay@.subrange(i as int, i + needle@.len()) =~= needle@);
            return true;
        }
        assert(hay@.subrange(i as int, i + needle@.len())[j as int] != needle@[j as int]);
        i = i + 1;
    }
    false
}

/// Whether a mail with this subject is a verification mail.
pub fn is_code_subject(subject: &str) -> (r: bool)
    ensures
        r == contains_text(subject@, CODE_SUBJECT@),
{
    contains_str(subject, CODE_SUBJECT)
}

/// For a pattern that the `regex` crate accepts, `Some` of capture group
/// `group` of the leftmost-first match of the pattern in `text` (`None` when
/// nothing matches or the group took no part); `None` for a pattern it
/// refuses.
pub uninterp spec fn regex_capture(pattern: Seq<char>, text: Seq<char>, group: nat) -> Option<
    Option<Seq<char>>,
>;

/// An optional string by its characters.
pub open spec fn opt_string_view(o: Option<String>) -> Option<Seq<char>> {
    match o {
        Some(s) => Some(s@),
        None => None,
    }
}

/// `regex::Regex::new` on `pattern`, then `Regex::captures` on `text` and
/// `Captures::get(group)`: what the regex crate finds, named above, and
/// nothing more is claimed of it.
#[verifier::external_body]
fn first_capture(pattern: &str, text: &str, group: usize) -> (r: Option<Option<String>>)
    ensures
        match r {
            Some(g) => regex_capture(pattern@, text@, group as nat) == Some(opt_string_view(g)),
            None => regex_capture(pattern@, text@, group as nat) is None,
        },
{
    match regex::Regex::new(pattern) {
        Ok(re) => Some(
            match re.captures(text) {
                Some(caps) => match caps.get(group) {
                    Some(m) => Some(m.as_str().to_string()),
                    None => None,
                },
                None => None,
            },
        ),
        Err(_) => None,
    }
}

/// The verification code in a mail's HTML: the six digits that
/// `CODE_PATTERN` finds first, if any.
pub fn extract_code(html: &str) -> (r: Option<String>)
    ensures
        regex_capture(CODE_PATTERN@, html@, 1) matches Some(g) ==> opt_string_view(r) == g,
        regex_capture(CODE_PATTERN@, html@, 1) is None ==> r is None,
{
    match first_capture(CODE_PATTERN, html, 1) {
        Some(found) => found,
        None => None,
    }
}

/// The record kept of a new account.
pub fn account_record(email: &str, password: &str) -> (r: String)
    ensures
        r@ == "Email: "@ + email@ + "\nPassword: "@ + password@,
{
    let mut r = String::from_str("Email: ");
    r.append(email);
    r.append("\nPassword: ");
    r.append(password);
    r
}

} // verus!
