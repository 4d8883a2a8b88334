//! Regular expressions, matched by the `regex` crate.
use vstd::prelude::*;

verus! {

/// The text of capture group `group` in the first match of `pattern` in `text`, as the
/// `regex` crate finds it; `None` where the pattern does not compile, nothing matches,
/// or the group takes no part in the match.
pub uninterp spec fn regex_group(pattern: Seq<char>, text: Seq<char>, group: nat) -> Option<Seq<char>>;

/// `text` with every match of `pattern` replaced by `replacement`, as the `regex` crate
/// replaces them; `None` where the pattern does not compile.
pub uninterp spec fn regex_replaced(pattern: Seq<char>, text: Seq<char>, replacement: Seq<char>) -> Option<Seq<char>>;

/// Whether `text` has no line break and a `.` with something on each side: what the
/// pattern `^(.+)\.(.+)$` matches, `.` standing for any character but a line break.
pub open spec fn has_inner_dot(text: Seq<char>) -> bool {
    &&& !text.contains('\n')
    &&& exists|i: int| 1 <= i < text.len() - 1 && text[i] == '.'
}

/// The place of the last `.` of `text` before place `n` that is not its first
/// character; 0 where there is none.
pub open spec fn dot_before(text: Seq<char>, n: int) -> int
    decreases n,
{
    if n <= 1 {
        0
    } else if text[n - 1] == '.' {
        n - 1
    } else {
        dot_before(text, n - 1)
    }
}

/// The place of the last `.` of `text` with something on each side.
pub open spec fn last_inner_dot(text: Seq<char>) -> int {
    dot_before(text, text.len() - 1)
}

/// Calls `regex::Regex::new(pattern)`, then `captures(text)` and `get(group)` on the
/// result. Claims: the result is `regex_group(pattern, text, group)`; and, as the
/// documentation of the syntax says, the pattern `^(.+)\.(.+)$` matches a text that
/// `has_inner_dot`, its first group, being greedy, taking everything before the last
/// `.` that has something after it, and its second group the rest after that `.`.
#[verifier::external_body]
pub(crate) fn capture_group(pattern: &str, text: &str, group: usize) -> (r: Option<String>)
    ensures
        match r {
            Some(s) => regex_group(pattern@, text@, group as nat) == Some(s@),
            None => regex_group(pattern@, text@, group as nat) is None,
        },
        pattern@ == "^(.+)\\.(.+)$"@ && group == 1 && has_inner_dot(text@) ==> match r {
            Some(s) => s@ == text@.take(last_inner_dot(text@)),
            None => false,
        },
        pattern@ == "^(.+)\\.(.+)$"@ && group == 2 && has_inner_dot(text@) ==> match r {
            Some(s) => s@ == text@.skip(last_inner_dot(text@) + 1),
            None => false,
        },
{
    let re = match regex::Regex::new(pattern) {
        Ok(re) => re,
        Err(_) => return None,
    };
    let captures = match re.captures(text) {
        Some(captures) => captures,
        None => return None,
    };
    match captures.get(group) {
        Some(m) => Some(m.as_str().to_string()),
        None => None,
    }
}

/// Calls `regex::Regex::new(pattern)`, then `replace_all(text, replacement)` on the
/// result. Claims: the result is `regex_replaced(pattern, text, replacement)`.
#[verifier::external_body]
pub(crate) fn replace_all(pattern: &str, text: &str, replacement: &str) -> (r: Option<String>)
    ensures
        match r {
            Some(s) => regex_replaced(pattern@, text@, replacement@) == Some(s@),
            None => regex_replaced(pattern@, text@, replacement@) is None,
        },
{
    match regex::Regex::new(pattern) {
        Ok(re) => Some(re.replace_all(text, replacement).to_string()),
        Err(_) => None,
    }
}

} // verus!
