//! Shortening of display text to a bounded number of characters.

use vstd::prelude::*;
use vstd::string::*;
use crate::utils::text::{chars_of, string_of};

verus! {

/// The mark that replaces the dropped tail of a shortened text.
pub open spec fn ellipsis() -> char {
    '\u{2026}'
}

/// A text cut down to at most `max_chars` characters. A text that fits is kept;
/// a longer one keeps its first `max_chars - 1` characters followed by an
/// ellipsis, except that a budget of one character yields a single dot.
pub open spec fn truncated(s: Seq<char>, max_chars: nat) -> Seq<char> {
    if max_chars == 0 {
        Seq::empty()
    } else if s.len() <= max_chars {
        s
    } else if max_chars == 1 {
        seq!['.']
    } else {
        s.take(max_chars - 1).push(ellipsis())
    }
}

/// A shortened text never exceeds its budget, and a text within budget is unchanged.
pub proof fn lemma_truncated_bounds(s: Seq<char>, max_chars: nat)
    ensures
        truncated(s, max_chars).len() <= max_chars,
        0 < max_chars && s.len() <= max_chars ==> truncated(s, max_chars) == s,
        truncated(s, max_chars).len() == if s.len() <= max_chars && 0 < max_chars {
            s.len()
        } else {
            max_chars
        },
{
}

/// Cuts a text down to at most `max_chars` characters, marking a cut with an
/// ellipsis: a budget of zero gives the empty text, a text within budget is
/// kept, a budget of one gives a single dot, and otherwise the first
/// `max_chars - 1` characters are followed by the ellipsis.
pub fn truncate_with_ellipsis(input: &str, max_chars: usize) -> (out: String)
    ensures
        out@ == truncated(input@, max_chars as nat),
        out@.len() <= max_chars,
{
    proof {
        lemma_truncated_bounds(input@, max_chars as nat);
    }
    if max_chars == 0 {
        return String::new();
    }
    let chars = chars_of(input);
    if chars.len() <= max_chars {
        return String::from_str(input);
    }
    if max_chars == 1 {
        proof {
            reveal_strlit(".");
            assert("."@ =~= seq!['.']);
        }
        return String::from_str(".");
    }
    let mut kept: Vec<char> = Vec::new();
    let mut i: usize = 0;
    while i < max_chars - 1
        invariant
            i <= max_chars - 1,
            max_chars < chars.len(),
            kept@ == chars@.take(i as int),
        decreases max_chars - 1 - i,
    {
        kept.push(chars[i]);
        assert(chars@.take(i + 1) == chars@.take(i as int).push(chars@[i as int]));
        i += 1;
    }
    kept.push('\u{2026}');
    string_of(&kept)
}

} // verus!
