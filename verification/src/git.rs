//! The commit helper: collecting the text of a diff and asking for a commit
//! message.
use vstd::prelude::*;

use crate::text::{chars_of, push_str};
use vstd::utf8::{decode_utf8, valid_utf8};

verus! {

/// `std::str::from_utf8(bytes)`.
/// Trusted: it succeeds exactly on valid UTF-8 and then gives the text the
/// bytes encode.
#[verifier::external_body]
fn utf8_text(bytes: &[u8]) -> (r: Option<&str>)
    ensures
        r is Some <==> valid_utf8(bytes@),
        r matches Some(s) ==> s@ == decode_utf8(bytes@),
{
    std::str::from_utf8(bytes).ok()
}

/// The text a diff line contributes: its bytes as text, or nothing when they
/// are no valid UTF-8.
pub open spec fn diff_line_text(bytes: Seq<u8>) -> Seq<char> {
    if valid_utf8(bytes) {
        decode_utf8(bytes)
    } else {
        Seq::<char>::empty()
    }
}

/// Appends the text of one diff line to the collected diff.
pub fn append_diff_line(diff: &mut String, line: &[u8])
    ensures
        final(diff)@ == old(diff)@ + diff_line_text(line@),
{
    match utf8_text(line) {
        Some(s) => push_str(diff, s),
        None => {
            assert(old(diff)@ + diff_line_text(line@) =~= old(diff)@);
        },
    }
}

/// Whether a git action asks for a commit message.
pub fn is_commit_action(action: &str) -> (r: bool)
    ensures
        r == (action@ == seq!['c', 'o', 'm', 'm', 'i', 't']),
{
    let cs = chars_of(action);
    let word = ['c', 'o', 'm', 'm', 'i', 't'];
    if cs.len() != 6 {
        return false;
    }
    let mut i: usize = 0;
    while i < 6
        invariant
            cs@ == action@,
            cs@.len() == 6,
            word@ == seq!['c', 'o', 'm', 'm', 'i', 't'],
            i <= 6,
            forall|k: int| 0 <= k < i ==> cs@[k] == word@[k],
        decreases 6 - i,
    {
        if cs[i] != word[i] {
            return false;
        }
        i = i + 1;
    }
    assert(cs@ =~= word@);
    true
}

/// The prompt that asks for a commit message and changelog entry for `diff`.
pub open spec fn commit_prompt_of(diff: Seq<char>) -> Seq<char> {
    "Generate commit message + changelog entry for these changes:\n"@ + diff
}

/// The model that writes commit messages.
pub open spec fn commit_model() -> Seq<char> {
    "grok-4-1-fast-reasoning"@
}

/// The request for a commit message for `diff` (always to xAI).
pub fn commit_request(diff: &str) -> (r: crate::agent::ChatRequest)
    ensures
        r.prompt@ == commit_prompt_of(diff@),
        r.model@ == commit_model(),
        !r.local,
{
    let mut prompt = String::from_str(
        "Generate commit message + changelog entry for these changes:\n",
    );
    push_str(&mut prompt, diff);
    crate::agent::ChatRequest {
        prompt,
        model: String::from_str("grok-4-1-fast-reasoning"),
        local: false,
    }
}

} // verus!
