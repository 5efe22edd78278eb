//! How texts are shortened for the log.
use vstd::prelude::*;
use crate::text::{chars_of, mark_newlines, mark_newlines_chars};

verus! {

/// A text as the log shows it: with line breaks marked, and cut after `max` characters
/// with an ellipsis where it is longer.
pub open spec fn truncated(text: Seq<char>, max: nat) -> Seq<char> {
    if text.len() <= max {
        mark_newlines(text)
    } else {
        mark_newlines(text.take(max as int)) + " \u{2026}"@
    }
}

/// Shortens a text for the log.
pub fn truncate(text: &str, max: usize) -> (r: String)
    ensures
        r@ == truncated(text@, max as nat),
{
    let chars = chars_of(text);
    if chars.len() <= max {
        return mark_newlines_chars(&chars);
    }
    let mut clipped: Vec<char> = Vec::new();
    for i in 0..max
        invariant
            max < chars@.len(),
            clipped@ == chars@.take(i as int),
    {
        clipped.push(chars[i]);
        assert(clipped@ =~= chars@.take(i + 1));
    }
    let mut r = mark_newlines_chars(&clipped);
    r.append(" \u{2026}");
    r
}

} // verus!
