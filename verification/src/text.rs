//! Character-level text handling: line splitting, trimming, truncation,
//! ASCII case folding and decimal rendering, each stated over `Seq<char>`.
use vstd::prelude::*;

verus! {

/// Appends one character to a string (`String::push`).
/// Trusted: `String::push` appends `c` at the end and leaves the rest as it was.
#[verifier::external_body]
pub(crate) fn string_push(s: &mut String, c: char)
    ensures
        final(s)@ == old(s)@.push(c),
{
    s.push(c);
}

/// The characters of `s`, in order.
pub fn chars_of(s: &str) -> (v: Vec<char>)
    ensures
        v@ == s@,
{
    let mut v: Vec<char> = Vec::new();
    for c in it: s.chars()
        invariant
            v@ == it.seq().take(it.index() as int),
            it.seq() == s@,
    {
        v.push(c);
    }
    v
}

/// The string made of `v[lo..hi]`.
pub fn string_from_chars(v: &[char], lo: usize, hi: usize) -> (s: String)
    requires
        lo <= hi <= v@.len(),
    ensures
        s@ == v@.subrange(lo as int, hi as int),
{
    let mut s = String::new();
    let mut i = lo;
    while i < hi
        invariant
            lo <= i <= hi <= v@.len(),
            s@ == v@.subrange(lo as int, i as int),
        decreases hi - i,
    {
        string_push(&mut s, v[i]);
        assert(v@.subrange(lo as int, i + 1) =~= v@.subrange(lo as int, i as int).push(v@[i as int]));
        i = i + 1;
    }
    s
}

/// Appends all characters of `t` to `s`.
pub fn push_str(s: &mut String, t: &str)
    ensures
        final(s)@ == old(s)@ + t@,
{
    s.append(t);
}

// ---------------------------------------------------------------------------
// Lines
// ---------------------------------------------------------------------------

/// Index of the first `'\n'` in `s`, or `s.len()` when there is none.
pub open spec fn first_newline(s: Seq<char>) -> nat
    decreases s.len(),
{
    if s.len() == 0 {
        0
    } else if s[0] == '\n' {
        0
    } else {
        1 + first_newline(s.drop_first())
    }
}

/// `t` without one trailing `'\r'`, if it has one.
pub open spec fn strip_cr(t: Seq<char>) -> Seq<char> {
    if t.len() > 0 && t.last() == '\r' {
        t.drop_last()
    } else {
        t
    }
}

/// The lines of `s` as `str::lines` yields them: pieces separated by `'\n'`,
/// each without its `'\n'` and without a `'\r'` that stood just before it;
/// a final `'\n'` does not open an empty last line, and an empty text has no lines.
pub open spec fn lines_of(s: Seq<char>) -> Seq<Seq<char>>
    decreases s.len(),
{
    if s.len() == 0 {
        seq![]
    } else {
        let i = first_newline(s);
        if i >= s.len() {
            seq![s]
        } else {
            seq![strip_cr(s.take(i as int))] + lines_of(s.skip((i + 1) as int))
        }
    }
}

/// The text that `str::lines().last().unwrap_or("")` gives: the last line, or
/// the empty text when there is no line.
pub open spec fn last_line_of(s: Seq<char>) -> Seq<char> {
    let ls = lines_of(s);
    if ls.len() == 0 {
        Seq::<char>::empty()
    } else {
        ls.last()
    }
}

/// Views of a vector of strings.
pub open spec fn string_views(v: Seq<String>) -> Seq<Seq<char>> {
    v.map_values(|x: String| x@)
}

proof fn lemma_first_newline(s: Seq<char>)
    ensures
        first_newline(s) <= s.len(),
        first_newline(s) < s.len() ==> s[first_newline(s) as int] == '\n',
        forall|k: int| 0 <= k < first_newline(s) ==> s[k] != '\n',
    decreases s.len(),
{
    if s.len() > 0 && s[0] != '\n' {
        lemma_first_newline(s.drop_first());
        assert forall|k: int| 0 <= k < first_newline(s) implies s[k] != '\n' by {
            if k > 0 {
                assert(s[k] == s.drop_first()[k - 1]);
            }
        }
    }
}

proof fn lemma_first_newline_at(s: Seq<char>, i: int)
    requires
        0 <= i <= s.len(),
        forall|k: int| 0 <= k < i ==> s[k] != '\n',
        i == s.len() || s[i] == '\n',
    ensures
        first_newline(s) == i,
{
    lemma_first_newline(s);
}

/// The lines of `s`, as `str::lines` yields them.
pub fn split_lines(s: &str) -> (out: Vec<String>)
    ensures
        string_views(out@) == lines_of(s@),
{
    let chars = chars_of(s);
    let n = chars.len();
    let mut out: Vec<String> = Vec::new();
    let mut start: usize = 0;
    let mut i: usize = 0;
    assert(chars@.skip(0) =~= chars@);
    while i < n
        invariant
            chars@ == s@,
            n == chars@.len(),
            start <= i <= n,
            forall|k: int| start <= k < i ==> chars@[k] != '\n',
            string_views(out@) + lines_of(chars@.skip(start as int)) == lines_of(chars@),
        decreases n - i,
    {
        if chars[i] == '\n' {
            let end = if i > start && chars[i - 1] == '\r' {
                i - 1
            } else {
                i
            };
            let line = string_from_chars(&chars, start, end);
            proof {
                let t = chars@.skip(start as int);
                let j = (i - start) as int;
                assert forall|k: int| 0 <= k < j implies t[k] != '\n' by {
                    assert(t[k] == chars@[start + k]);
                }
                assert(t[j] == chars@[i as int]);
                lemma_first_newline_at(t, j);
                assert(t.take(j) =~= chars@.subrange(start as int, i as int));
                assert(t.skip(j + 1) =~= chars@.skip(i + 1));
                assert(strip_cr(t.take(j)) =~= chars@.subrange(start as int, end as int));
                assert(lines_of(t) == seq![line@] + lines_of(chars@.skip(i + 1)));
                assert(string_views(out@.push(line)) =~= string_views(out@).push(line@));
                assert(string_views(out@).push(line@) + lines_of(chars@.skip(i + 1))
                    =~= string_views(out@) + (seq![line@] + lines_of(chars@.skip(i + 1))));
            }
            out.push(line);
            start = i + 1;
        }
        i = i + 1;
    }
    proof {
        let t = chars@.skip(start as int);
        assert forall|k: int| 0 <= k < t.len() implies t[k] != '\n' by {
            assert(t[k] == chars@[start + k]);
        }
        lemma_first_newline_at(t, t.len() as int);
    }
    if start < n {
        let line = string_from_chars(&chars, start, n);
        proof {
            let t = chars@.skip(start as int);
            assert(t =~= chars@.subrange(start as int, n as int));
            assert(lines_of(t) == seq![line@]);
            assert(string_views(out@.push(line)) =~= string_views(out@) + seq![line@]);
        }
        out.push(line);
    } else {
        proof {
            assert(chars@.skip(start as int).len() == 0);
            assert(string_views(out@) + lines_of(chars@.skip(start as int)) =~= string_views(out@));
        }
    }
    out
}

/// The last line of `s`, or the empty string when `s` has no line
/// (`s.lines().last().unwrap_or("")`).
pub fn last_line(s: &str) -> (r: String)
    ensures
        r@ == last_line_of(s@),
{
    let mut lines = split_lines(s);
    let k = lines.len();
    if k == 0 {
        String::new()
    } else {
        let ghost before = lines@;
        let r = lines.pop().unwrap();
        proof {
            assert(string_views(before)[k - 1] == before[k - 1]@);
        }
        r
    }
}

// ---------------------------------------------------------------------------
// Whitespace and trimming
// ---------------------------------------------------------------------------

/// The characters with the Unicode `White_Space` property (`char::is_whitespace`).
pub open spec fn is_white_space(c: char) -> bool {
    let u = c as u32;
    ||| 0x09 <= u <= 0x0D
    ||| u == 0x20
    ||| u == 0x85
    ||| u == 0xA0
    ||| u == 0x1680
    ||| 0x2000 <= u <= 0x200A
    ||| u == 0x2028
    ||| u == 0x2029
    ||| u == 0x202F
    ||| u == 0x205F
    ||| u == 0x3000
}

/// Whether `c` is white space in the sense of `char::is_whitespace`.
pub fn is_whitespace(c: char) -> (r: bool)
    ensures
        r == is_white_space(c),
{
    let u = c as u32;
    (0x09 <= u && u <= 0x0D) || u == 0x20 || u == 0x85 || u == 0xA0 || u == 0x1680 || (0x2000
        <= u && u <= 0x200A) || u == 0x2028 || u == 0x2029 || u == 0x202F || u == 0x205F || u
        == 0x3000
}

/// `s` without its leading white space.
pub open spec fn trim_start_of(s: Seq<char>) -> Seq<char>
    decreases s.len(),
{
    if s.len() > 0 && is_white_space(s[0]) {
        trim_start_of(s.drop_first())
    } else {
        s
    }
}

/// `s` without its trailing white space.
pub open spec fn trim_end_of(s: Seq<char>) -> Seq<char>
    decreases s.len(),
{
    if s.len() > 0 && is_white_space(s.last()) {
        trim_end_of(s.drop_last())
    } else {
        s
    }
}

/// `s` without leading and trailing white space (`str::trim`).
pub open spec fn trimmed(s: Seq<char>) -> Seq<char> {
    trim_end_of(trim_start_of(s))
}

/// `s.trim()`, as an owned string.
pub fn trim(s: &str) -> (r: String)
    ensures
        r@ == trimmed(s@),
{
    let chars = chars_of(s);
    let n = chars.len();
    let mut a: usize = 0;
    assert(chars@.skip(0) =~= chars@);
    while a < n && is_whitespace(chars[a])
        invariant
            chars@ == s@,
            n == chars@.len(),
            a <= n,
            trim_start_of(chars@) == trim_start_of(chars@.skip(a as int)),
        decreases n - a,
    {
        assert(chars@.skip(a as int).drop_first() =~= chars@.skip(a + 1));
        a = a + 1;
    }
    assert(trim_start_of(chars@) == chars@.skip(a as int));
    let mut b: usize = n;
    assert(chars@.skip(a as int) =~= chars@.subrange(a as int, n as int));
    while b > a && is_whitespace(chars[b - 1])
        invariant
            chars@ == s@,
            n == chars@.len(),
            a <= b <= n,
            trimmed(chars@) == trim_end_of(chars@.subrange(a as int, b as int)),
        decreases b - a,
    {
        assert(chars@.subrange(a as int, b as int).drop_last() =~= chars@.subrange(
            a as int,
            b - 1,
        ));
        b = b - 1;
    }
    string_from_chars(&chars, a, b)
}

// ---------------------------------------------------------------------------
// Truncation
// ---------------------------------------------------------------------------

/// The first `min(n, s.len())` characters of `s`.
pub open spec fn take_chars(s: Seq<char>, n: nat) -> Seq<char> {
    if n < s.len() {
        s.take(n as int)
    } else {
        s
    }
}

/// The first `n` characters of `s` (`s.chars().take(n).collect()`).
pub fn truncate_chars(s: &str, n: usize) -> (r: String)
    ensures
        r@ == take_chars(s@, n as nat),
{
    let mut r = String::new();
    let mut count: usize = 0;
    for c in it: s.chars()
        invariant
            it.seq() == s@,
            count <= n,
            count <= it.index(),
            r@ == take_chars(it.seq().take(it.index() as int), n as nat),
            count == r@.len(),
    {
        proof {
            let k = it.index() as int;
            assert(it.seq().take(k + 1) =~= it.seq().take(k).push(c));
        }
        if count < n {
            string_push(&mut r, c);
            count = count + 1;
            proof {
                let k = it.index() as int;
                assert(it.seq().take(k).len() == k);
                assert(r@ =~= it.seq().take(k + 1));
            }
        } else {
            proof {
                let k = it.index() as int;
                assert(it.seq().take(k + 1).take(n as int) =~= it.seq().take(k).take(n as int));
            }
        }
    }
    proof {
        assert(s@.take(s@.len() as int) =~= s@);
    }
    r
}

// ---------------------------------------------------------------------------
// ASCII case folding
// ---------------------------------------------------------------------------

/// The code of `u` with an ASCII upper-case letter folded to lower case.
pub open spec fn ascii_fold(u: u32) -> u32 {
    if 0x41 <= u <= 0x5A {
        (u + 0x20) as u32
    } else {
        u
    }
}

/// `a` and `b` are equal up to ASCII case (`str::eq_ignore_ascii_case`):
/// same number of characters, each pair equal once ASCII letters are folded.
pub open spec fn eq_ignore_ascii_case_spec(a: Seq<char>, b: Seq<char>) -> bool {
    &&& a.len() == b.len()
    &&& forall|i: int| 0 <= i < a.len() ==> ascii_fold(a[i] as u32) == ascii_fold(b[i] as u32)
}

/// Whether `a` and `b` are equal up to ASCII case.
pub fn eq_ignore_ascii_case(a: &[char], b: &[char]) -> (r: bool)
    ensures
        r == eq_ignore_ascii_case_spec(a@, b@),
{
    if a.len() != b.len() {
        return false;
    }
    let mut i: usize = 0;
    while i < a.len()
        invariant
            a@.len() == b@.len(),
            i <= a@.len(),
            forall|k: int| 0 <= k < i ==> ascii_fold(a@[k] as u32) == ascii_fold(b@[k] as u32),
        decreases a@.len() - i,
    {
        let x = a[i] as u32;
        let y = b[i] as u32;
        let fx = if 0x41 <= x && x <= 0x5A {
            x + 0x20
        } else {
            x
        };
        let fy = if 0x41 <= y && y <= 0x5A {
            y + 0x20
        } else {
            y
        };
        if fx != fy {
            return false;
        }
        i = i + 1;
    }
    true
}

// ---------------------------------------------------------------------------
// Decimal numbers
// ---------------------------------------------------------------------------

/// The decimal digit for `d < 10`.
pub open spec fn digit_char(d: nat) -> char {
    seq!['0', '1', '2', '3', '4', '5', '6', '7', '8', '9'][d as int]
}

/// The decimal representation of `n`, without leading zeros (`Display` of an integer).
pub open spec fn decimal(n: nat) -> Seq<char>
    decreases n,
{
    if n < 10 {
        seq![digit_char(n)]
    } else {
        decimal(n / 10).push(digit_char(n % 10))
    }
}

fn digit(d: u64) -> (c: char)
    requires
        d < 10,
    ensures
        c == digit_char(d as nat),
{
    let digits = ['0', '1', '2', '3', '4', '5', '6', '7', '8', '9'];
    proof {
        assert(digits@ =~= seq!['0', '1', '2', '3', '4', '5', '6', '7', '8', '9']);
    }
    digits[d as usize]
}

/// The decimal representation of `n`.
pub fn decimal_string(n: u64) -> (s: String)
    ensures
        s@ == decimal(n as nat),
    decreases n,
{
    if n < 10 {
        let mut s = String::new();
        string_push(&mut s, digit(n));
        assert(s@ =~= seq![digit_char(n as nat)]);
        s
    } else {
        let mut s = decimal_string(n / 10);
        string_push(&mut s, digit(n % 10));
        s
    }
}

} // verus!
