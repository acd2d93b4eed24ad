//! Verified text utilities: character classification, trimming, line
//! splitting, substring search and replacement.

use vstd::prelude::*;
use vstd::string::StrSliceExecFns;
use vstd::string::StringExecFns;

verus! {

/// Whether a character has the Unicode `White_Space` property, as
/// `char::is_whitespace` decides it.
pub uninterp spec fn whitespace_char(c: char) -> bool;

/// Whether a character is alphanumeric, as `char::is_alphanumeric`
/// decides it.
pub uninterp spec fn alphanumeric_char(c: char) -> bool;

/// Relies on `char::is_whitespace`: whether the character has the Unicode
/// `White_Space` property. The result depends on the character alone; on
/// the ASCII range the property holds of exactly the six documented
/// control and space characters.
pub assume_specification[ char::is_whitespace ](c: char) -> (r: bool)
    ensures
        r == whitespace_char(c),
        (c as u32) < 128 ==> (r <==> (c == ' ' || c == '\t' || c == '\n' || c == '\u{000B}' || c
            == '\u{000C}' || c == '\r')),
;

/// Relies on `char::is_alphanumeric`: whether the character is in the
/// Unicode categories for letters or numbers. The result depends on the
/// character alone; on the ASCII range those categories hold of exactly
/// the digits and the letters.
pub assume_specification[ char::is_alphanumeric ](c: char) -> (r: bool)
    ensures
        r == alphanumeric_char(c),
        (c as u32) < 128 ==> (r <==> (('0' <= c && c <= '9') || ('A' <= c && c <= 'Z') || ('a' <= c
            && c <= 'z'))),
;

/// Every character of the sequence is whitespace.
pub open spec fn all_whitespace(s: Seq<char>) -> bool {
    forall|j: int| 0 <= j < s.len() ==> whitespace_char(s[j])
}

/// Every character of the sequence is alphanumeric.
pub open spec fn all_alphanumeric(s: Seq<char>) -> bool {
    forall|j: int| 0 <= j < s.len() ==> alphanumeric_char(s[j])
}

/// The sequence with leading whitespace removed.
pub open spec fn trim_start_rec(s: Seq<char>) -> Seq<char>
    decreases s.len(),
{
    if s.len() > 0 && whitespace_char(s[0]) {
        trim_start_rec(s.drop_first())
    } else {
        s
    }
}

/// The sequence with trailing whitespace removed.
pub open spec fn trim_end_rec(s: Seq<char>) -> Seq<char>
    decreases s.len(),
{
    if s.len() > 0 && whitespace_char(s.last()) {
        trim_end_rec(s.drop_last())
    } else {
        s
    }
}

/// The sequence with both leading and trailing whitespace removed, as
/// `str::trim` produces it.
pub open spec fn spec_trim(s: Seq<char>) -> Seq<char> {
    trim_end_rec(trim_start_rec(s))
}

/// Whether the string is blank: empty after trimming.
pub fn is_blank_str(s: &str) -> (r: bool)
    ensures
        r == all_whitespace(s@),
{
    let n = s.unicode_len();
    let mut i: usize = 0;
    while i < n
        invariant
            i <= n,
            n == s@.len(),
            forall|j: int| 0 <= j < i ==> whitespace_char(s@[j]),
        decreases n - i,
    {
        if !s.get_char(i).is_whitespace() {
            return false;
        }
        i = i + 1;
    }
    true
}

/// Whether every character of the string is alphanumeric.
pub fn is_all_alphanumeric(s: &str) -> (r: bool)
    ensures
        r == all_alphanumeric(s@),
{
    let n = s.unicode_len();
    let mut i: usize = 0;
    while i < n
        invariant
            i <= n,
            n == s@.len(),
            forall|j: int| 0 <= j < i ==> alphanumeric_char(s@[j]),
        decreases n - i,
    {
        if !s.get_char(i).is_alphanumeric() {
            return false;
        }
        i = i + 1;
    }
    true
}

/// Whether two strings hold the same characters.
pub fn str_eq(a: &str, b: &str) -> (r: bool)
    ensures
        r == (a@ == b@),
{
    let n = a.unicode_len();
    let m = b.unicode_len();
    if n != m {
        proof {
            assert(a@ != b@) by {
                if a@ == b@ {
                    assert(a@.len() == b@.len());
                }
            }
        }
        return false;
    }
    let mut i: usize = 0;
    while i < n
        invariant
            i <= n,
            n == a@.len(),
            n == b@.len(),
            forall|j: int| 0 <= j < i ==> a@[j] == b@[j],
        decreases n - i,
    {
        if a.get_char(i) != b.get_char(i) {
            return false;
        }
        i = i + 1;
    }
    proof {
        assert(a@ =~= b@);
    }
    true
}

/// The number of leading whitespace characters of the string.
fn leading_whitespace(s: &str, n: usize) -> (a: usize)
    requires
        n == s@.len(),
    ensures
        a <= n,
        trim_start_rec(s@) == s@.skip(a as int),
{
    let mut a: usize = 0;
    proof {
        assert(s@.skip(0) =~= s@);
    }
    while a < n
        invariant
            a <= n,
            n == s@.len(),
            trim_start_rec(s@) == trim_start_rec(s@.skip(a as int)),
        decreases n - a,
    {
        if !s.get_char(a).is_whitespace() {
            proof {
                assert(s@.skip(a as int)[0] == s@[a as int]);
            }
            return a;
        }
        proof {
            assert(s@.skip(a as int)[0] == s@[a as int]);
            assert(s@.skip(a as int).drop_first() =~= s@.skip(a as int + 1));
        }
        a = a + 1;
    }
    proof {
        assert(s@.skip(n as int) =~= Seq::<char>::empty());
    }
    n
}

/// The end of the string once trailing whitespace after position `a` is
/// dropped.
fn end_without_trailing_whitespace(s: &str, n: usize, a: usize) -> (b: usize)
    requires
        n == s@.len(),
        a <= n,
    ensures
        a <= b <= n,
        trim_end_rec(s@.subrange(a as int, n as int)) == s@.subrange(a as int, b as int),
{
    let mut b: usize = n;
    while b > a
        invariant
            a <= b <= n,
            n == s@.len(),
            trim_end_rec(s@.subrange(a as int, n as int)) == trim_end_rec(
                s@.subrange(a as int, b as int),
            ),
        decreases b,
    {
        proof {
            assert(s@.subrange(a as int, b as int).last() == s@[b - 1]);
        }
        if !s.get_char(b - 1).is_whitespace() {
            return b;
        }
        proof {
            assert(s@.subrange(a as int, b as int).drop_last() =~= s@.subrange(
                a as int,
                b as int - 1,
            ));
        }
        b = b - 1;
    }
    proof {
        assert(s@.subrange(a as int, a as int) =~= Seq::<char>::empty());
    }
    a
}

/// The string with surrounding whitespace removed, as an owned value.
pub fn trim_to_string(s: &str) -> (r: String)
    ensures
        r@ == spec_trim(s@),
{
    let n = s.unicode_len();
    let a = leading_whitespace(s, n);
    let b = end_without_trailing_whitespace(s, n, a);
    proof {
        assert(s@.skip(a as int) =~= s@.subrange(a as int, n as int));
    }
    s.substring_char(a, b).to_owned()
}

/// The index of the first occurrence of the two-character marker `": "` at
/// or after position `i`, if any.
pub open spec fn find_colon_space_from(s: Seq<char>, i: int) -> Option<int>
    decreases s.len() - i,
{
    if i < 0 {
        None
    } else if i + 2 > s.len() {
        None
    } else if s[i] == ':' && s[i + 1] == ' ' {
        Some(i)
    } else {
        find_colon_space_from(s, i + 1)
    }
}

/// Finds the first occurrence of `": "` in the string, as
/// `str::split_once(": ")` would locate it.
pub fn find_colon_space(s: &str) -> (r: Option<usize>)
    ensures
        match r {
            Some(i) => find_colon_space_from(s@, 0) == Some(i as int),
            None => find_colon_space_from(s@, 0) is None,
        },
{
    let n = s.unicode_len();
    if n < 2 {
        return None;
    }
    let mut i: usize = 0;
    while i <= n - 2
        invariant
            n >= 2,
            i <= n,
            n == s@.len(),
            find_colon_space_from(s@, 0) == find_colon_space_from(s@, i as int),
        decreases n - i,
    {
        if s.get_char(i) == ':' && s.get_char(i + 1) == ' ' {
            return Some(i);
        }
        i = i + 1;
    }
    None
}

/// A line terminated by a newline drops one trailing carriage return, as
/// `str::lines` does.
pub open spec fn chomp_cr(l: Seq<char>) -> Seq<char> {
    if l.len() > 0 && l.last() == '\r' {
        l.drop_last()
    } else {
        l
    }
}

/// The lines of the text, split at `'\n'`: each newline-terminated piece
/// loses its newline and one trailing `'\r'`; a last piece without a
/// newline is kept as it stands; a trailing newline yields no extra empty
/// line. `cur` holds the characters of the current line read so far.
pub open spec fn lines_rec(s: Seq<char>, cur: Seq<char>) -> Seq<Seq<char>>
    decreases s.len(),
{
    if s.len() == 0 {
        if cur.len() == 0 {
            seq![]
        } else {
            seq![cur]
        }
    } else if s[0] == '\n' {
        seq![chomp_cr(cur)] + lines_rec(s.drop_first(), seq![])
    } else {
        lines_rec(s.drop_first(), cur.push(s[0]))
    }
}

/// The lines of the text, as `str::lines` yields them.
pub open spec fn spec_lines(s: Seq<char>) -> Seq<Seq<char>> {
    lines_rec(s, seq![])
}

/// Removes one trailing carriage return from an owned line.
fn chomp_cr_exec(line: String) -> (r: String)
    ensures
        r@ == chomp_cr(line@),
{
    let n = line.as_str().unicode_len();
    if n > 0 && line.as_str().get_char(n - 1) == '\r' {
        proof {
            assert(line@.subrange(0, n - 1) =~= line@.drop_last());
        }
        line.as_str().substring_char(0, n - 1).to_owned()
    } else {
        line
    }
}

/// Splits the text into its lines, as `str::lines` does.
pub fn split_lines(s: &str) -> (r: Vec<String>)
    ensures
        r.deep_view() == spec_lines(s@),
{
    let n = s.unicode_len();
    let mut out: Vec<String> = Vec::new();
    let mut cur: String = String::new();
    let mut i: usize = 0;
    proof {
        assert(s@.skip(0) =~= s@);
        assert(out.deep_view() + lines_rec(s@, cur@) =~= lines_rec(s@, cur@));
    }
    while i < n
        invariant
            i <= n,
            n == s@.len(),
            out.deep_view() + lines_rec(s@.skip(i as int), cur@) == spec_lines(s@),
        decreases n - i,
    {
        let ghost prev_out = out.deep_view();
        let ghost prev_cur = cur@;
        let c = s.get_char(i);
        proof {
            assert(s@.skip(i as int)[0] == s@[i as int]);
            assert(s@.skip(i as int).drop_first() =~= s@.skip(i as int + 1));
        }
        if c == '\n' {
            let finished = chomp_cr_exec(cur);
            out.push(finished);
            cur = String::new();
            proof {
                assert(out.deep_view() =~= prev_out.push(chomp_cr(prev_cur)));
                assert(prev_out.push(chomp_cr(prev_cur)) + lines_rec(s@.skip(i as int + 1), cur@)
                    =~= prev_out + (seq![chomp_cr(prev_cur)] + lines_rec(
                    s@.skip(i as int + 1),
                    cur@,
                )));
            }
        } else {
            cur.append(s.substring_char(i, i + 1));
            proof {
                assert(s@.subrange(i as int, i as int + 1) =~= seq![s@[i as int]]);
                assert(cur@ =~= prev_cur.push(s@[i as int]));
            }
        }
        i = i + 1;
    }
    proof {
        assert(s@.skip(n as int) =~= Seq::<char>::empty());
    }
    if !cur.as_str().is_empty() {
        let ghost prev_out = out.deep_view();
        let ghost prev_cur = cur@;
        out.push(cur);
        proof {
            assert(out.deep_view() =~= prev_out.push(prev_cur));
            assert(prev_out.push(prev_cur) =~= prev_out + seq![prev_cur]);
        }
    }
    out
}

/// `s` with every occurrence of `pat` replaced by `rep`: occurrences are
/// found left to right and do not overlap, as `str::replace` finds them.
pub open spec fn spec_replace(s: Seq<char>, pat: Seq<char>, rep: Seq<char>) -> Seq<char>
    decreases s.len(),
{
    if pat.len() == 0 || s.len() < pat.len() {
        s
    } else if s.take(pat.len() as int) == pat {
        rep + spec_replace(s.skip(pat.len() as int), pat, rep)
    } else {
        seq![s[0]] + spec_replace(s.drop_first(), pat, rep)
    }
}

/// Whether `pat` occurs in `s` at position `i`.
fn matches_at(s: &str, i: usize, pat: &str, n: usize, m: usize) -> (r: bool)
    requires
        n == s@.len(),
        m == pat@.len(),
        i + m <= n,
    ensures
        r == (s@.subrange(i as int, i as int + m as int) == pat@),
{
    let mut j: usize = 0;
    while j < m
        invariant
            j <= m,
            n == s@.len(),
            m == pat@.len(),
            i + m <= n,
            forall|k: int| 0 <= k < j ==> s@[i + k] == pat@[k],
        decreases m - j,
    {
        if s.get_char(i + j) != pat.get_char(j) {
            proof {
                assert(s@.subrange(i as int, i as int + m as int)[j as int] == s@[i + j]);
            }
            return false;
        }
        j = j + 1;
    }
    proof {
        assert(s@.subrange(i as int, i as int + m as int) =~= pat@);
    }
    true
}

/// Replaces every occurrence of `pat` in `s` by `rep`, left to right and
/// without overlap, as `str::replace` does.
pub fn replace_all(s: &str, pat: &str, rep: &str) -> (r: String)
    requires
        pat@.len() > 0,
    ensures
        r@ == spec_replace(s@, pat@, rep@),
{
    let n = s.unicode_len();
    let m = pat.unicode_len();
    let mut out = String::new();
    let mut i: usize = 0;
    proof {
        assert(s@.skip(0) =~= s@);
        assert(out@ + spec_replace(s@, pat@, rep@) =~= spec_replace(s@, pat@, rep@));
    }
    while i < n
        invariant
            i <= n,
            n == s@.len(),
            m == pat@.len(),
            m > 0,
            out@ + spec_replace(s@.skip(i as int), pat@, rep@) == spec_replace(s@, pat@, rep@),
        decreases n - i,
    {
        let ghost prev_out = out@;
        let ghost rest = s@.skip(i as int);
        if m <= n - i && matches_at(s, i, pat, n, m) {
            proof {
                assert(rest.take(m as int) =~= s@.subrange(i as int, i as int + m as int));
                assert(rest.skip(m as int) =~= s@.skip(i as int + m as int));
            }
            out.append(rep);
            i = i + m;
        } else {
            proof {
                if m <= n - i {
                    assert(rest.take(m as int) =~= s@.subrange(i as int, i as int + m as int));
                }
                assert(rest[0] == s@[i as int]);
                assert(rest.drop_first() =~= s@.skip(i as int + 1));
            }
            out.append(s.substring_char(i, i + 1));
            proof {
                assert(s@.subrange(i as int, i as int + 1) =~= seq![s@[i as int]]);
                assert(out@ =~= prev_out + seq![s@[i as int]]);
            }
            i = i + 1;
        }
    }
    proof {
        assert(s@.skip(n as int) =~= Seq::<char>::empty());
    }
    out
}

/// The pieces joined with a single `'\n'` between consecutive pieces, as
/// `[String]::join("\n")` produces it.
pub open spec fn spec_join_lines(ss: Seq<Seq<char>>) -> Seq<char>
    decreases ss.len(),
{
    if ss.len() == 0 {
        seq![]
    } else if ss.len() == 1 {
        ss[0]
    } else {
        spec_join_lines(ss.drop_last()) + seq!['\n'] + ss.last()
    }
}

/// Joins the strings with a newline between consecutive entries.
pub fn join_lines(v: &Vec<String>) -> (r: String)
    ensures
        r@ == spec_join_lines(v.deep_view()),
{
    let mut out = String::new();
    let mut i: usize = 0;
    proof {
        reveal_strlit("\n");
    }
    while i < v.len()
        invariant
            i <= v.len(),
            out@ == spec_join_lines(v.deep_view().take(i as int)),
            "\n"@ =~= seq!['\n'],
        decreases v.len() - i,
    {
        let ghost prev_out = out@;
        if i > 0 {
            out.append("\n");
        }
        out.append(v[i].as_str());
        proof {
            let dv = v.deep_view();
            assert(dv.take(i as int + 1).drop_last() =~= dv.take(i as int));
            assert(dv.take(i as int + 1).last() == dv[i as int]);
            assert(dv[i as int] == v[i as int]@);
            if i == 0 {
                assert(dv.take(1) =~= seq![dv[0]]);
                assert(out@ =~= dv[0]);
            }
        }
        i = i + 1;
    }
    proof {
        assert(v.deep_view().take(v.len() as int) =~= v.deep_view());
    }
    out
}

} // verus!
