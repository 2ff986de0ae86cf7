//! Token estimates for text handed to language models.
use vstd::prelude::*;

verus! {

/// The note put at the end of truncated text.
pub open spec fn truncation_note() -> Seq<char> {
    "\n... [Truncated due to token budget]"@
}

/// How many characters of cut text come before the note: room is left for
/// the note within `limit` tokens of four characters; when the note does
/// not fit, the text is cut to the limit without it.
pub open spec fn kept_chars(limit: nat) -> nat {
    if 4 * limit >= truncation_note().len() {
        (4 * limit - truncation_note().len()) as nat
    } else {
        4 * limit
    }
}

/// Text cut down to fit in `limit` tokens of four characters, marked when
/// cut and the mark fits.
pub open spec fn truncated_text(text: Seq<char>, limit: nat) -> Seq<char> {
    if text.len() > 4 * limit {
        if 4 * limit >= truncation_note().len() {
            text.take(kept_chars(limit) as int) + truncation_note()
        } else {
            text.take(4 * limit as int)
        }
    } else {
        text
    }
}

/// Simple token estimator based on characters / 4 approximation.
pub fn estimate_tokens(text: &str) -> (n: usize)
    ensures
        n == text@.len() / 4,
{
    text.unicode_len() / 4
}

/// Truncates text to stay within a token limit.
pub fn truncate_by_tokens(text: &str, limit: usize) -> (r: String)
    requires
        4 * limit <= usize::MAX,
    ensures
        r@ == truncated_text(text@, limit as nat),
        r@.len() / 4 <= limit,
{
    proof {
        reveal_strlit("\n... [Truncated due to token budget]");
        law_truncation_within_limit(text@, limit as nat);
    }
    let char_limit = limit * 4;
    let note = "\n... [Truncated due to token budget]";
    let note_len = note.unicode_len();
    if text.unicode_len() > char_limit {
        if char_limit >= note_len {
            let mut truncated = text.substring_char(0, char_limit - note_len).to_owned();
            truncated.append(note);
            truncated
        } else {
            text.substring_char(0, char_limit).to_owned()
        }
    } else {
        text.to_owned()
    }
}

/// Truncated text stays within the token limit: its estimate is at most
/// `limit`.
pub proof fn law_truncation_within_limit(text: Seq<char>, limit: nat)
    ensures
        truncated_text(text, limit).len() / 4 <= limit,
        text.len() > 4 * limit ==> truncated_text(text, limit).len() / 4 == limit,
{
    reveal_strlit("\n... [Truncated due to token budget]");
}

/// Truncating text that has been truncated to the same limit changes
/// nothing.
pub proof fn law_truncate_idempotent(text: Seq<char>, limit: nat)
    ensures
        truncated_text(truncated_text(text, limit), limit) == truncated_text(text, limit),
{
    reveal_strlit("\n... [Truncated due to token budget]");
}

/// Truncation keeps a prefix of the text, and text within `4 * limit`
/// characters is kept whole.
pub proof fn law_truncate_keeps_prefix(text: Seq<char>, limit: nat)
    ensures
        text.len() <= 4 * limit ==> truncated_text(text, limit) == text,
        text.len() > 4 * limit ==> truncated_text(text, limit).take(kept_chars(limit) as int) == text.take(
            kept_chars(limit) as int,
        ),
{
    reveal_strlit("\n... [Truncated due to token budget]");
    if text.len() > 4 * limit {
        if 4 * limit >= truncation_note().len() {
            let r = text.take(kept_chars(limit) as int) + truncation_note();
            assert(r.take(kept_chars(limit) as int) =~= text.take(kept_chars(limit) as int));
        } else {
            assert(text.take(4 * limit as int).take(kept_chars(limit) as int) =~= text.take(kept_chars(limit) as int));
        }
    }
}

} // verus!
