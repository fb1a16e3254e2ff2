//! Text utilities shared by the rule and tape parsers: whitespace
//! tokenization, line splitting, and character-exact string equality.

use vstd::prelude::*;
use vstd::string::StrSliceExecFns;

verus! {

/// The whitespace characters that separate tokens and are ignored between
/// them: space, tab, newline and carriage return.
pub open spec fn is_space(c: char) -> bool {
    c == ' ' || c == '\t' || c == '\n' || c == '\r'
}

/// Runtime counterpart of [`is_space`].
pub fn is_space_char(c: char) -> (r: bool)
    ensures
        r == is_space(c),
{
    c == ' ' || c == '\t' || c == '\n' || c == '\r'
}

/// Length of the leading run of non-whitespace characters of `s`.
pub open spec fn token_len(s: Seq<char>) -> nat
    decreases s.len(),
{
    if s.len() == 0 || is_space(s[0]) {
        0
    } else {
        1 + token_len(s.drop_first())
    }
}

/// The leading token never extends past the end of the string.
pub proof fn lemma_token_len_le(s: Seq<char>)
    ensures
        token_len(s) <= s.len(),
    decreases s.len(),
{
    if s.len() == 0 || is_space(s[0]) {
    } else {
        lemma_token_len_le(s.drop_first());
    }
}

/// The whitespace-separated tokens of `s`, in order.  Every token is a
/// non-empty run of non-whitespace characters.
pub open spec fn tokens(s: Seq<char>) -> Seq<Seq<char>>
    decreases s.len(),
    via tokens_decreases
{
    if s.len() == 0 {
        Seq::empty()
    } else if is_space(s[0]) {
        tokens(s.drop_first())
    } else {
        seq![s.take(token_len(s) as int)] + tokens(s.skip(token_len(s) as int))
    }
}

#[via_fn]
proof fn tokens_decreases(s: Seq<char>) {
    if s.len() > 0 && !is_space(s[0]) {
        lemma_token_len_le(s);
        assert(token_len(s) == 1 + token_len(s.drop_first()));
    }
}

/// The views of a sequence of owned strings.
pub open spec fn views_of(v: Seq<String>) -> Seq<Seq<char>> {
    v.map_values(|t: String| t@)
}

/// The token at any index of [`tokens`] is non-empty.
proof fn lemma_token_nonempty_at(s: Seq<char>, i: int)
    requires
        0 <= i < tokens(s).len(),
    ensures
        tokens(s)[i].len() > 0,
    decreases s.len(),
{
    if s.len() == 0 {
    } else if is_space(s[0]) {
        lemma_token_nonempty_at(s.drop_first(), i);
    } else {
        lemma_token_len_le(s);
        assert(token_len(s) == 1 + token_len(s.drop_first()));
        let rest = s.skip(token_len(s) as int);
        if i == 0 {
            assert(tokens(s)[0] == s.take(token_len(s) as int));
        } else {
            assert(tokens(s)[i] == tokens(rest)[i - 1]);
            lemma_token_nonempty_at(rest, i - 1);
        }
    }
}

/// Every token produced by [`tokens`] is non-empty.
pub proof fn lemma_tokens_nonempty(s: Seq<char>)
    ensures
        forall|i: int| 0 <= i < tokens(s).len() ==> tokens(s)[i].len() > 0,
{
    assert forall|i: int| 0 <= i < tokens(s).len() implies tokens(s)[i].len() > 0 by {
        lemma_token_nonempty_at(s, i);
    }
}

/// If the first `m` characters of `t` are non-whitespace and the run stops at
/// `m` (end of string or a whitespace character), the leading token has
/// length exactly `m`.
proof fn lemma_token_len_run(t: Seq<char>, m: int)
    requires
        0 <= m <= t.len(),
        forall|k: int| 0 <= k < m ==> !is_space(t[k]),
        m == t.len() || is_space(t[m]),
    ensures
        token_len(t) == m,
    decreases m,
{
    if m == 0 {
    } else {
        assert(!is_space(t[0]));
        lemma_token_len_run(t.drop_first(), m - 1);
    }
}

/// Length of the leading run of characters of `s` before a newline.
pub open spec fn line_len(s: Seq<char>) -> nat
    decreases s.len(),
{
    if s.len() == 0 || s[0] == '\n' {
        0
    } else {
        1 + line_len(s.drop_first())
    }
}

/// The leading line never extends past the end of the string.
pub proof fn lemma_line_len_le(s: Seq<char>)
    ensures
        line_len(s) <= s.len(),
    decreases s.len(),
{
    if s.len() == 0 || s[0] == '\n' {
    } else {
        lemma_line_len_le(s.drop_first());
    }
}

/// A line with a trailing carriage return stripped, so that text with
/// carriage-return line endings reads the same as text without them.
pub open spec fn strip_cr(l: Seq<char>) -> Seq<char> {
    if l.len() > 0 && l.last() == '\r' {
        l.drop_last()
    } else {
        l
    }
}

/// The lines of `s`: the runs between newline characters, each with a
/// trailing carriage return stripped.  A trailing newline ends the last
/// line; it does not open an empty one.
pub open spec fn lines_of(s: Seq<char>) -> Seq<Seq<char>>
    decreases s.len(),
    via lines_of_decreases
{
    if s.len() == 0 {
        Seq::empty()
    } else if line_len(s) == s.len() {
        seq![strip_cr(s)]
    } else {
        seq![strip_cr(s.take(line_len(s) as int))] + lines_of(s.skip(line_len(s) as int + 1))
    }
}

#[via_fn]
proof fn lines_of_decreases(s: Seq<char>) {
    lemma_line_len_le(s);
}

/// If the first `m` characters of `t` are not newlines and position `m` is
/// the end of the string or a newline, the leading line has length exactly
/// `m`.
proof fn lemma_line_len_run(t: Seq<char>, m: int)
    requires
        0 <= m <= t.len(),
        forall|k: int| 0 <= k < m ==> t[k] != '\n',
        m == t.len() || t[m] == '\n',
    ensures
        line_len(t) == m,
    decreases m,
{
    if m == 0 {
    } else {
        assert(t[0] != '\n');
        lemma_line_len_run(t.drop_first(), m - 1);
    }
}

/// Splits `s` into its lines, as [`lines_of`] describes.
pub fn split_lines(s: &str) -> (r: Vec<String>)
    ensures
        views_of(r@) == lines_of(s@),
{
    let n = s.unicode_len();
    let mut r: Vec<String> = Vec::new();
    let mut i: usize = 0;
    proof {
        assert(s@.skip(0) =~= s@);
        assert(views_of(r@) + lines_of(s@) =~= lines_of(s@));
    }
    while i < n
        invariant
            i <= n,
            n == s@.len(),
            lines_of(s@) == views_of(r@) + lines_of(s@.skip(i as int)),
        decreases n - i,
    {
        let mut j: usize = i;
        while j < n
            invariant_except_break
                i <= j <= n,
                n == s@.len(),
                forall|k: int| i <= k < j ==> s@[k] != '\n',
            ensures
                i <= j <= n,
                forall|k: int| i <= k < j ==> s@[k] != '\n',
                j == n || s@[j as int] == '\n',
            decreases n - j,
        {
            if s.get_char(j) == '\n' {
                break;
            }
            j = j + 1;
        }
        let end = if j > i && s.get_char(j - 1) == '\r' {
            j - 1
        } else {
            j
        };
        let line = s.substring_char(i, end).to_owned();
        proof {
            let rest = s@.skip(i as int);
            lemma_line_len_run(rest, j - i);
            assert(rest.take(j - i) =~= s@.subrange(i as int, j as int));
            if j > i && s@[j - 1] == '\r' {
                assert(strip_cr(rest.take(j - i)) =~= s@.subrange(i as int, end as int));
            } else {
                assert(strip_cr(rest.take(j - i)) == rest.take(j - i));
            }
            assert(line@ == strip_cr(rest.take(j - i)));
            assert(views_of(r@.push(line)) =~= views_of(r@).push(line@));
            if j == n {
                assert(line_len(rest) == rest.len());
                assert(rest.take(j - i) =~= rest);
                assert(lines_of(rest) =~= seq![strip_cr(rest)]);
                assert(views_of(r@) + lines_of(rest) =~= views_of(r@.push(line)) + lines_of(
                    s@.skip(n as int),
                ));
            } else {
                assert(rest.skip(j - i + 1) =~= s@.skip(j + 1));
                assert(views_of(r@) + lines_of(rest) =~= views_of(r@.push(line)) + lines_of(
                    s@.skip(j + 1),
                ));
            }
        }
        r.push(line);
        if j < n {
            i = j + 1;
        } else {
            i = n;
        }
    }
    proof {
        assert(s@.skip(n as int) =~= Seq::<char>::empty());
        assert(views_of(r@) + lines_of(s@.skip(n as int)) =~= views_of(r@));
    }
    r
}

/// Relies on std's `String::push`: appends exactly the given character.
#[verifier::external_body]
pub(crate) fn push_char(s: &mut String, c: char)
    ensures
        final(s)@ == old(s)@.push(c),
{
    s.push(c);
}

/// Character-exact equality of two string slices.
pub fn str_eq(a: &str, b: &str) -> (r: bool)
    ensures
        r == (a@ == b@),
{
    let n = a.unicode_len();
    if n != b.unicode_len() {
        return false;
    }
    let mut i: usize = 0;
    while i < n
        invariant
            i <= n,
            n == a@.len(),
            n == b@.len(),
            forall|k: int| 0 <= k < i ==> a@[k] == b@[k],
        decreases n - i,
    {
        if a.get_char(i) != b.get_char(i) {
            return false;
        }
        i = i + 1;
    }
    proof {
        assert(a@ =~= b@);
    }
    true
}

/// Splits `s` into its whitespace-separated tokens.
pub fn tokenize(s: &str) -> (r: Vec<String>)
    ensures
        views_of(r@) == tokens(s@),
{
    let n = s.unicode_len();
    let mut r: Vec<String> = Vec::new();
    let mut i: usize = 0;
    proof {
        assert(s@.skip(0) =~= s@);
        assert(views_of(r@) + tokens(s@) =~= tokens(s@));
    }
    while i < n
        invariant
            i <= n,
            n == s@.len(),
            tokens(s@) == views_of(r@) + tokens(s@.skip(i as int)),
        decreases n - i,
    {
        let c = s.get_char(i);
        if is_space_char(c) {
            proof {
                assert(s@.skip(i as int)[0] == s@[i as int]);
                assert(s@.skip(i as int).drop_first() =~= s@.skip(i + 1));
            }
            i = i + 1;
        } else {
            let mut j: usize = i + 1;
            while j < n
                invariant_except_break
                    i < j <= n,
                    n == s@.len(),
                    forall|k: int| i <= k < j ==> !is_space(s@[k]),
                ensures
                    i < j <= n,
                    forall|k: int| i <= k < j ==> !is_space(s@[k]),
                    j == n || is_space(s@[j as int]),
                decreases n - j,
            {
                if is_space_char(s.get_char(j)) {
                    break;
                }
                j = j + 1;
            }
            let tok = s.substring_char(i, j).to_owned();
            proof {
                let rest = s@.skip(i as int);
                lemma_token_len_run(rest, j - i);
                assert(rest.take(j - i) =~= s@.subrange(i as int, j as int));
                assert(rest.skip(j - i) =~= s@.skip(j as int));
                assert(views_of(r@.push(tok)) =~= views_of(r@).push(tok@));
                assert(views_of(r@) + (seq![tok@] + tokens(s@.skip(j as int))) =~= views_of(
                    r@.push(tok),
                ) + tokens(s@.skip(j as int)));
            }
            r.push(tok);
            i = j;
        }
    }
    proof {
        assert(s@.skip(n as int) =~= Seq::<char>::empty());
        assert(views_of(r@) + tokens(s@.skip(n as int)) =~= views_of(r@));
    }
    r
}

} // verus!
