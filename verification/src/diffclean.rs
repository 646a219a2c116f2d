//! Post-processing of the external diff tool's output.
//!
//! The diff tool annotates file-header lines with a volatile timestamp: a tab
//! followed by a date token (four digits, a dash, a digit, and the rest of the
//! line). Those annotations would make every diff look different even when no
//! content changed, so [`sanitize_diff`] strips every such run, from its tab
//! up to (not including) the end of its line.
//!
//! The tool's standard error is judged by [`evaluate_diff_output`]: any
//! non-blank standard-error output is a hard failure, even when the exit
//! status would have been acceptable — a partial or garbled diff is worse
//! than none.

use vstd::prelude::*;

verus! {

broadcast use vstd::string::group_string_axioms;

/// A decimal digit.
pub open spec fn is_digit(c: char) -> bool {
    48 <= c as u32 <= 57
}

/// A timestamp annotation begins at `i`: a tab, four digits, a dash and a
/// digit.
pub open spec fn stamp_at(s: Seq<char>, i: int) -> bool {
    &&& 0 <= i
    &&& i + 7 <= s.len()
    &&& s[i] == '\t'
    &&& is_digit(s[i + 1])
    &&& is_digit(s[i + 2])
    &&& is_digit(s[i + 3])
    &&& is_digit(s[i + 4])
    &&& s[i + 5] == '-'
    &&& is_digit(s[i + 6])
}

/// What remains of `s` from position `i` on, after stripping every timestamp
/// annotation. While `skipping`, characters up to the next line break are
/// being discarded; the line break itself is kept.
pub open spec fn strip_from(s: Seq<char>, i: int, skipping: bool) -> Seq<char>
    decreases s.len() - i,
{
    if i < 0 || i >= s.len() {
        Seq::empty()
    } else if skipping {
        if s[i] == '\n' {
            seq!['\n'] + strip_from(s, i + 1, false)
        } else {
            strip_from(s, i + 1, true)
        }
    } else if stamp_at(s, i) {
        strip_from(s, i + 1, true)
    } else {
        seq![s[i]] + strip_from(s, i + 1, false)
    }
}

/// `s` with every timestamp annotation stripped.
pub open spec fn strip_stamps(s: Seq<char>) -> Seq<char> {
    strip_from(s, 0, false)
}

/// An ASCII-whitespace-only (possibly empty) text.
pub open spec fn is_blank(s: Seq<char>) -> bool {
    forall|i: int| 0 <= i < s.len() ==> is_space(#[trigger] s[i])
}

pub open spec fn is_space(c: char) -> bool {
    c == ' ' || c == '\t' || c == '\n' || c == '\r'
}

/// A diff whose text contains no timestamp annotation passes through
/// [`strip_stamps`] unchanged.
pub proof fn lemma_strip_stamps_untouched(s: Seq<char>)
    requires
        forall|i: int| !stamp_at(s, i),
    ensures
        strip_stamps(s) == s,
{
    lemma_strip_from_untouched(s, 0);
    assert(strip_stamps(s) =~= s);
}

proof fn lemma_strip_from_untouched(s: Seq<char>, i: int)
    requires
        0 <= i <= s.len(),
        forall|j: int| !stamp_at(s, j),
    ensures
        strip_from(s, i, false) =~= s.skip(i),
    decreases s.len() - i,
{
    if i < s.len() {
        lemma_strip_from_untouched(s, i + 1);
        assert(strip_from(s, i, false) =~= seq![s[i]] + s.skip(i + 1));
        assert(seq![s[i]] + s.skip(i + 1) =~= s.skip(i));
    }
}

fn is_digit_char(c: char) -> (b: bool)
    ensures
        b == is_digit(c),
{
    let u = c as u32;
    48 <= u && u <= 57
}

fn stamp_at_check(chars: &Vec<char>, i: usize) -> (b: bool)
    requires
        i < chars@.len(),
    ensures
        b == stamp_at(chars@, i as int),
{
    if chars.len() - i < 7 {
        return false;
    }
    chars[i] == '\t' && is_digit_char(chars[i + 1]) && is_digit_char(chars[i + 2]) && is_digit_char(
        chars[i + 3],
    ) && is_digit_char(chars[i + 4]) && chars[i + 5] == '-' && is_digit_char(chars[i + 6])
}

/// The characters of `s`, in order, as a vector.
fn chars_of(s: &str) -> (v: Vec<char>)
    ensures
        v@ == s@,
{
    let mut v: Vec<char> = Vec::new();
    for c in it: s.chars()
        invariant
            it.seq() == s@,
            v@ == it.seq().take(it.index() as int),
    {
        v.push(c);
    }
    proof {
        assert(v@ =~= s@);
    }
    v
}

/// Relies on `String::from_iter` over an iterator of characters: the built
/// string holds exactly those characters in that order.
#[verifier::external_body]
fn string_from_chars(v: Vec<char>) -> (s: String)
    ensures
        s@ == v@,
{
    v.into_iter().collect()
}

/// Strips every timestamp annotation from a diff text: each run beginning
/// with a tab, four digits, a dash and a digit is removed from its tab up to
/// (not including) the end of its line.
pub fn sanitize_diff(text: &str) -> (r: String)
    ensures
        r@ == strip_stamps(text@),
{
    let chars = chars_of(text);
    let n = chars.len();
    let mut out: Vec<char> = Vec::new();
    let mut skipping = false;
    let mut i: usize = 0;
    while i < n
        invariant
            chars@ == text@,
            n == chars@.len(),
            i <= n,
            strip_stamps(text@) == out@ + strip_from(text@, i as int, skipping),
        decreases n - i,
    {
        let c = chars[i];
        proof {
            assert(text@[i as int] == c);
        }
        if skipping {
            if c == '\n' {
                out.push('\n');
                skipping = false;
                proof {
                    assert(out@ + strip_from(text@, i + 1, false) =~= out@.drop_last() + (
                    seq!['\n'] + strip_from(text@, i + 1, false)));
                }
            }
        } else {
            if stamp_at_check(&chars, i) {
                skipping = true;
            } else {
                out.push(c);
                proof {
                    assert(out@ + strip_from(text@, i + 1, false) =~= out@.drop_last() + (seq![c]
                        + strip_from(text@, i + 1, false)));
                }
            }
        }
        i += 1;
    }
    proof {
        assert(strip_from(text@, n as int, skipping) =~= Seq::<char>::empty());
        assert(out@ + Seq::<char>::empty() =~= out@);
    }
    string_from_chars(out)
}

/// How a diff invocation's captured output is judged.
#[derive(Debug)]
pub enum DiffError {
    /// The tool could not be spawned or waited for.
    ToolInvocation,
    /// The tool wrote something other than whitespace to standard error.
    ToolStderr,
}

/// Judges the diff tool's captured output: any non-blank standard-error text
/// is a hard failure; otherwise the diff text is returned with its timestamp
/// annotations stripped.
pub fn evaluate_diff_output(stdout: &str, stderr: &str) -> (r: Result<String, DiffError>)
    ensures
        r is Ok <==> is_blank(stderr@),
        r matches Ok(d) ==> d@ == strip_stamps(stdout@),
        r matches Err(e) ==> e is ToolStderr,
{
    let errs = chars_of(stderr);
    let m = errs.len();
    let mut i: usize = 0;
    while i < m
        invariant
            errs@ == stderr@,
            m == errs@.len(),
            i <= m,
            forall|j: int| 0 <= j < i ==> is_space(#[trigger] errs@[j]),
        decreases m - i,
    {
        let c = errs[i];
        if !(c == ' ' || c == '\t' || c == '\n' || c == '\r') {
            return Err(DiffError::ToolStderr);
        }
        i += 1;
    }
    Ok(sanitize_diff(stdout))
}

} // verus!
