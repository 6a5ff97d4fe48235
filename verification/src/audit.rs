//! The code audit: a scan for leaked secrets by a regular expression, the
//! choice of files a directory scan reads, and the prompt that asks the model for a full audit.
use vstd::prelude::*;

use crate::text::{
    lines_of, push_str, split_lines, string_views, take_chars, trim, trimmed, truncate_chars,
};

verus! {

#[verifier::external_type_specification]
#[verifier::external_body]
pub struct ExRegexError(regex::Error);

/// The pattern of a leaked secret: a key-like name, a separator, then twenty
/// or more characters of key material.
pub const SECRET_PATTERN: &'static str =
    r#"(?i)(api[_-]?key|password|secret|private[_-]?key|aws[_-]?key)[=:\s"']+[A-Za-z0-9/+=]{20,}"#;

/// How deep a directory scan descends below the audited directory.
pub const AUDIT_WALK_DEPTH: usize = 3;

/// How many characters of an audited file go into the audit prompt.
pub const EXCERPT_LIMIT: usize = 8000;

/// Whether `pattern` is a regular expression that the `regex` crate accepts.
pub uninterp spec fn regex_valid(pattern: Seq<char>) -> bool;

/// Whether the regular expression `pattern` matches somewhere in `text`.
pub uninterp spec fn regex_matches(pattern: Seq<char>, text: Seq<char>) -> bool;

#[verifier::external_type_specification]
#[verifier::external_body]
pub struct ExRegex(regex::Regex);

/// Whether the compiled regular expression `re` matches somewhere in `text`.
pub uninterp spec fn compiled_matches(re: regex::Regex, text: Seq<char>) -> bool;

/// `regex::Regex::new(pattern)`.
/// Trusted: compiling succeeds exactly for the valid patterns, and the
/// compiled expression matches in a text exactly where the pattern does.
#[verifier::external_body]
fn regex_new(pattern: &str) -> (r: Result<regex::Regex, regex::Error>)
    ensures
        r is Ok <==> regex_valid(pattern@),
        r matches Ok(re) ==> forall|t: Seq<char>|
            #[trigger] compiled_matches(re, t) == regex_matches(pattern@, t),
{
    regex::Regex::new(pattern)
}

/// `Regex::is_match(text)`.
/// Trusted: whether `re` matches somewhere in `text`.
#[verifier::external_body]
fn regex_is_match(re: &regex::Regex, text: &str) -> (r: bool)
    ensures
        r == compiled_matches(*re, text@),
{
    re.is_match(text)
}

/// Why an audit could not run.
pub enum AuditError {
    /// The secret pattern did not compile.
    Pattern(regex::Error),
}

/// A line that looks like it leaks a secret: its number (from 1) and its
/// text without surrounding white space.
pub struct SecretHit {
    pub line: usize,
    pub text: String,
}

/// The result of scanning one file: whether it leaks a secret, and the
/// lines that do.
pub struct FileScan {
    pub leaked: bool,
    pub hits: Vec<SecretHit>,
}

/// Whether the secret pattern matches in `text`.
pub open spec fn has_secret(text: Seq<char>) -> bool {
    regex_matches(SECRET_PATTERN@, text)
}

/// The hits among `lines` when `matched[i]` tells whether line `i` matches:
/// each matching line's number (from 1) and its text trimmed, in order.
pub open spec fn hits_from(lines: Seq<Seq<char>>, matched: Seq<bool>) -> Seq<(nat, Seq<char>)>
    decreases lines.len(),
{
    if lines.len() == 0 {
        seq![]
    } else {
        let rest = hits_from(lines.drop_last(), matched);
        if matched[lines.len() - 1] {
            rest.push((lines.len(), trimmed(lines.last())))
        } else {
            rest
        }
    }
}

/// Whether each of `lines` matches the secret pattern.
pub open spec fn secret_lines(lines: Seq<Seq<char>>) -> Seq<bool> {
    lines.map_values(|l: Seq<char>| has_secret(l))
}

/// The hits among `lines`, numbered from 1, in order.
pub open spec fn hits_of(lines: Seq<Seq<char>>) -> Seq<(nat, Seq<char>)> {
    hits_from(lines, secret_lines(lines))
}

/// The views of a list of hits.
pub open spec fn hit_views(hs: Seq<SecretHit>) -> Seq<(nat, Seq<char>)> {
    hs.map_values(|h: SecretHit| (h.line as nat, h.text@))
}

proof fn lemma_hits_from(lines: Seq<Seq<char>>, matched: Seq<bool>)
    requires
        matched.len() >= lines.len(),
    ensures
        forall|k: int|
            0 <= k < hits_from(lines, matched).len() ==> {
                let (n, t) = #[trigger] hits_from(lines, matched)[k];
                &&& 1 <= n <= lines.len()
                &&& matched[n - 1]
                &&& t == trimmed(lines[n - 1])
            },
        forall|k: int, m: int|
            0 <= k < m < hits_from(lines, matched).len() ==> (#[trigger] hits_from(
                lines,
                matched,
            )[k]).0 < (#[trigger] hits_from(lines, matched)[m]).0,
        hits_from(lines, matched).len() <= lines.len(),
    decreases lines.len(),
{
    if lines.len() > 0 {
        let init = lines.drop_last();
        lemma_hits_from(init, matched);
        assert forall|k: int| 0 <= k < hits_from(init, matched).len() implies (#[trigger] hits_from(
            init,
            matched,
        )[k]).0 <= init.len() && lines[hits_from(init, matched)[k].0 - 1] == init[hits_from(
            init,
            matched,
        )[k].0 - 1] by {}
    }
}

/// Every hit is a line that matches the secret pattern: its number counts
/// from 1 within the lines, its text is that line trimmed, and the hits come
/// in the order of their lines, each line at most once.
pub proof fn law_hits_are_matching_lines(lines: Seq<Seq<char>>)
    ensures
        forall|k: int|
            0 <= k < hits_of(lines).len() ==> {
                let (n, t) = #[trigger] hits_of(lines)[k];
                &&& 1 <= n <= lines.len()
                &&& has_secret(lines[n - 1])
                &&& t == trimmed(lines[n - 1])
            },
        forall|k: int, m: int|
            0 <= k < m < hits_of(lines).len() ==> (#[trigger] hits_of(lines)[k]).0 < (
            #[trigger] hits_of(lines)[m]).0,
        hits_of(lines).len() <= lines.len(),
{
    lemma_hits_from(lines, secret_lines(lines));
    assert forall|k: int| 0 <= k < hits_of(lines).len() implies {
        let (n, t) = #[trigger] hits_of(lines)[k];
        &&& 1 <= n <= lines.len()
        &&& has_secret(lines[n - 1])
        &&& t == trimmed(lines[n - 1])
    } by {
        let n = hits_of(lines)[k].0;
        assert(secret_lines(lines)[n - 1] == has_secret(lines[n - 1]));
    }
}

proof fn lemma_hits_complete(lines: Seq<Seq<char>>, matched: Seq<bool>)
    requires
        matched.len() >= lines.len(),
    ensures
        forall|k: int|
            0 <= k < lines.len() && #[trigger] matched[k] ==> exists|j: int|
                0 <= j < hits_from(lines, matched).len() && #[trigger] hits_from(lines, matched)[j]
                    == ((k + 1) as nat, trimmed(lines[k])),
    decreases lines.len(),
{
    if lines.len() > 0 {
        let init = lines.drop_last();
        let rest = hits_from(init, matched);
        lemma_hits_complete(init, matched);
        let last = lines.len() - 1;
        assert forall|k: int| 0 <= k < lines.len() && #[trigger] matched[k] implies exists|j: int|
            0 <= j < hits_from(lines, matched).len() && #[trigger] hits_from(lines, matched)[j] == (
            (k + 1) as nat,
            trimmed(lines[k]),
        ) by {
            if k < last {
                let j = choose|j: int|
                    0 <= j < rest.len() && #[trigger] rest[j] == ((k + 1) as nat, trimmed(init[k]));
                assert(init[k] == lines[k]);
                if matched[last] {
                    assert(hits_from(lines, matched) == rest.push((lines.len(), trimmed(lines.last()))));
                    assert(hits_from(lines, matched)[j] == rest[j]);
                } else {
                    assert(hits_from(lines, matched) == rest);
                }
            } else {
                assert(k == last);
                assert(hits_from(lines, matched) == rest.push((lines.len(), trimmed(lines.last()))));
                assert(hits_from(lines, matched)[rest.len() as int] == ((k + 1) as nat, trimmed(
                    lines[k],
                )));
            }
        }
    }
}

/// No matching line is left out: every line that matches the secret pattern
/// is among the hits, with its number (from 1) and its trimmed text. With
/// `law_hits_are_matching_lines`, the hits are exactly the matching lines.
pub proof fn law_every_matching_line_is_a_hit(lines: Seq<Seq<char>>)
    ensures
        forall|k: int|
            0 <= k < lines.len() && has_secret(#[trigger] lines[k]) ==> exists|j: int|
                0 <= j < hits_of(lines).len() && #[trigger] hits_of(lines)[j] == (
                    (k + 1) as nat,
                    trimmed(lines[k]),
                ),
{
    lemma_hits_complete(lines, secret_lines(lines));
    assert forall|k: int| 0 <= k < lines.len() && has_secret(#[trigger] lines[k]) implies exists|
        j: int,
    |
        0 <= j < hits_of(lines).len() && #[trigger] hits_of(lines)[j] == (
            (k + 1) as nat,
            trimmed(lines[k]),
        ) by {
        let m = secret_lines(lines);
        assert(m[k]);
        let j = choose|j: int|
            0 <= j < hits_from(lines, m).len() && #[trigger] hits_from(lines, m)[j] == (
                (k + 1) as nat,
                trimmed(lines[k]),
            );
        assert(hits_of(lines)[j] == hits_from(lines, m)[j]);
    }
}

/// The hits among `lines`, given whether each line matches the secret
/// pattern: every matching line's number (from 1) and its trimmed text, in order.
pub fn collect_hits(lines: &Vec<String>, matched: &Vec<bool>) -> (hits: Vec<SecretHit>)
    requires
        matched@.len() == lines@.len(),
    ensures
        hit_views(hits@) == hits_from(string_views(lines@), matched@),
{
    let ghost ls = string_views(lines@);
    let mut hits: Vec<SecretHit> = Vec::new();
    let mut i: usize = 0;
    while i < lines.len()
        invariant
            ls == string_views(lines@),
            matched@.len() == lines@.len(),
            i <= lines@.len(),
            hit_views(hits@) == hits_from(ls.take(i as int), matched@),
        decreases lines@.len() - i,
    {
        assert(ls.take(i + 1).drop_last() =~= ls.take(i as int));
        assert(ls.take(i + 1).last() == lines@[i as int]@);
        if matched[i] {
            let ghost before = hits@;
            let t = trim(lines[i].as_str());
            hits.push(SecretHit { line: i + 1, text: t });
            assert(hit_views(hits@) =~= hit_views(before).push(((i + 1) as nat, t@)));
        }
        i = i + 1;
    }
    assert(ls.take(lines@.len() as int) =~= ls);
    hits
}

/// Whether `content` leaks a secret somewhere.
pub fn file_has_secret(content: &str) -> (r: Result<bool, AuditError>)
    ensures
        r is Ok <==> regex_valid(SECRET_PATTERN@),
        r matches Ok(b) ==> b == has_secret(content@),
{
    match regex_new(SECRET_PATTERN) {
        Ok(re) => Ok(regex_is_match(&re, content)),
        Err(e) => Err(AuditError::Pattern(e)),
    }
}

/// Scans the content of one file: whether it leaks a secret and, when it
/// does, every line that does, numbered from 1 and trimmed.
pub fn scan_file_content(content: &str) -> (r: Result<FileScan, AuditError>)
    ensures
        r is Ok <==> regex_valid(SECRET_PATTERN@),
        r matches Ok(s) ==> {
            &&& s.leaked == has_secret(content@)
            &&& s.leaked ==> hit_views(s.hits@) == hits_of(lines_of(content@))
            &&& !s.leaked ==> s.hits@.len() == 0
        },
{
    let re = match regex_new(SECRET_PATTERN) {
        Ok(re) => re,
        Err(e) => return Err(AuditError::Pattern(e)),
    };
    let leaked = regex_is_match(&re, content);
    if !leaked {
        return Ok(FileScan { leaked, hits: Vec::new() });
    }
    let lines = split_lines(content);
    let ghost ls = lines_of(content@);
    let mut matched: Vec<bool> = Vec::new();
    let mut i: usize = 0;
    while i < lines.len()
        invariant
            string_views(lines@) == ls,
            i <= lines@.len(),
            matched@.len() == i,
            forall|k: int| 0 <= k < i ==> matched@[k] == has_secret(ls[k]),
            forall|t: Seq<char>| #[trigger] compiled_matches(re, t) == has_secret(t),
        decreases lines@.len() - i,
    {
        assert(ls[i as int] == lines@[i as int]@);
        let m = regex_is_match(&re, lines[i].as_str());
        matched.push(m);
        i = i + 1;
    }
    assert(matched@ =~= secret_lines(ls));
    let hits = collect_hits(&lines, &matched);
    Ok(FileScan { leaked, hits })
}

// ---------------------------------------------------------------------------
// Which files a directory scan reads
// ---------------------------------------------------------------------------

/// The extension of a path, as `Path::extension` gives it (as text).
pub uninterp spec fn extension_of(path: Seq<char>) -> Option<Seq<char>>;

/// `Path::new(path).extension()`, converted to text.
/// Trusted: the result is the extension of the file name of `path` as
/// `Path::extension` defines it (the part after the last `.`, none when there
/// is no `.` or only a leading one).
#[verifier::external_body]
fn path_extension(path: &str) -> (r: Option<String>)
    ensures
        match r {
            Some(e) => extension_of(path@) == Some(e@),
            None => extension_of(path@) is None,
        },
{
    std::path::Path::new(path).extension().map(|e| e.to_string_lossy().to_string())
}

/// The extensions of the source files a directory scan reads.
pub open spec fn audited_extension(e: Seq<char>) -> bool {
    ||| e == seq!['r', 's']
    ||| e == seq!['p', 'y']
    ||| e == seq!['j', 's']
    ||| e == seq!['t', 's']
}

/// Whether a directory scan reads the file at `path`: a Rust, Python,
/// JavaScript or TypeScript source.
pub fn is_audited_source(path: &str) -> (r: bool)
    ensures
        r == (extension_of(path@) matches Some(e) && audited_extension(e)),
{
    match path_extension(path) {
        Some(e) => {
            let cs = crate::text::chars_of(e.as_str());
            if cs.len() != 2 {
                return false;
            }
            let a = cs[0];
            let b = cs[1];
            assert(cs@ =~= seq![a, b]);
            (a == 'r' && b == 's') || (a == 'p' && b == 'y') || (a == 'j' && b == 's') || (a == 't'
                && b == 's')
        },
        None => false,
    }
}

// ---------------------------------------------------------------------------
// The audit prompt
// ---------------------------------------------------------------------------

/// What a directory audit sends in place of file content.
pub open spec fn directory_note() -> Seq<char> {
    "Directory scan - full content not sent. Provide specific files if needed."@
}

/// The excerpt sent with the audit prompt: the first characters of a file's content, or
/// the note for a directory.
pub open spec fn excerpt_of(file_content: Option<Seq<char>>) -> Seq<char> {
    match file_content {
        Some(c) => take_chars(c, EXCERPT_LIMIT as nat),
        None => directory_note(),
    }
}

/// The excerpt of an audited file (`Some(content)`) or directory (`None`).
pub fn audit_excerpt(file_content: Option<&str>) -> (r: String)
    ensures
        r@ == excerpt_of(match file_content {
            Some(c) => Some(c@),
            None => None,
        }),
{
    match file_content {
        Some(c) => truncate_chars(c, EXCERPT_LIMIT),
        None => String::from_str(
            "Directory scan - full content not sent. Provide specific files if needed.",
        ),
    }
}

/// The audit prompt for the audited path (as displayed) and its excerpt.
pub open spec fn audit_prompt_of(path: Seq<char>, excerpt: Seq<char>) -> Seq<char> {
    "Perform a comprehensive code audit on the following code/file:\n- Security issues (secrets, injections, unsafe patterns)\n- Bugs & logical errors\n- Performance concerns\n- Best practices & style improvements\n- Rust-specific recommendations (if applicable)\n\nCode/path: "@
        + path + "\nContent excerpt (truncated):\n```text\n"@ + excerpt + "\n```"@
}

/// The prompt that asks for a full audit of `path` with `excerpt`.
pub fn audit_prompt(path: &str, excerpt: &str) -> (r: String)
    ensures
        r@ == audit_prompt_of(path@, excerpt@),
{
    let mut p = String::from_str(
        "Perform a comprehensive code audit on the following code/file:\n- Security issues (secrets, injections, unsafe patterns)\n- Bugs & logical errors\n- Performance concerns\n- Best practices & style improvements\n- Rust-specific recommendations (if applicable)\n\nCode/path: ",
    );
    push_str(&mut p, path);
    push_str(&mut p, "\nContent excerpt (truncated):\n```text\n");
    push_str(&mut p, excerpt);
    push_str(&mut p, "\n```");
    p
}

/// The model that audits code.
pub open spec fn audit_model() -> Seq<char> {
    "grok-4"@
}

/// The audit request for `path` with `excerpt` (always to xAI).
pub fn audit_request(path: &str, excerpt: &str) -> (r: crate::agent::ChatRequest)
    ensures
        r.prompt@ == audit_prompt_of(path@, excerpt@),
        r.model@ == audit_model(),
        !r.local,
{
    crate::agent::ChatRequest {
        prompt: audit_prompt(path, excerpt),
        model: String::from_str("grok-4"),
        local: false,
    }
}

} // verus!
