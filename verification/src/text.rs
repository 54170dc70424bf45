use vstd::prelude::*;

use crate::error::ToolError;
use crate::strings::{chars_of, string_views};

verus! {

use vstd::math::max;
use vstd::string::StrSliceExecFns;

/// Whether `c` counts as white space, as `char::is_whitespace` decides it.
pub uninterp spec fn whitespace_char(c: char) -> bool;

/// Relies on char::is_whitespace: whether `c` has the Unicode white-space
/// property, a function of the character alone.
#[verifier::external_body]
fn char_is_whitespace(c: char) -> (r: bool)
    ensures
        r == whitespace_char(c),
{
    c.is_whitespace()
}

/// The Unicode lowercasing of a character sequence, as `str::to_lowercase`
/// computes it.
pub uninterp spec fn lower_of(s: Seq<char>) -> Seq<char>;

/// The Unicode uppercasing of a character sequence, as `str::to_uppercase`
/// computes it.
pub uninterp spec fn upper_of(s: Seq<char>) -> Seq<char>;

/// Converts text to lower case.
/// Relies on str::to_lowercase: the result depends on the characters alone,
/// and an empty string stays empty.
#[verifier::external_body]
pub fn to_lowercase(text: &str) -> (r: String)
    ensures
        r@ == lower_of(text@),
        text@.len() == 0 ==> r@.len() == 0,
{
    text.to_lowercase()
}

/// Converts text to upper case.
/// Relies on str::to_uppercase: the result depends on the characters alone,
/// and an empty string stays empty.
#[verifier::external_body]
pub fn to_uppercase(text: &str) -> (r: String)
    ensures
        r@ == upper_of(text@),
        text@.len() == 0 ==> r@.len() == 0,
{
    text.to_uppercase()
}

/// Counts the characters of `text`.
pub fn count_chars(text: &str) -> (r: usize)
    ensures
        r == text@.len(),
{
    text.unicode_len()
}

/// The number of words of `t`: maximal runs of non-white-space characters,
/// counted by their first character.
pub open spec fn word_count(t: Seq<char>) -> nat
    decreases t.len(),
{
    if t.len() == 0 {
        0
    } else {
        word_count(t.drop_last()) + (if !whitespace_char(t.last()) && (t.len() == 1
            || whitespace_char(t[t.len() - 2])) {
            1nat
        } else {
            0nat
        })
    }
}

/// Counts the white-space-separated words of `text`.
#[verifier::loop_isolation(false)]
pub fn count_words(text: &str) -> (r: usize)
    ensures
        r == word_count(text@),
{
    let n = text.unicode_len();
    let mut count: usize = 0;
    let mut prev_ws = true;
    let mut i: usize = 0;
    while i < n
        invariant
            0 <= i <= n,
            count <= i,
            count == word_count(text@.take(i as int)),
            prev_ws == (i == 0 || whitespace_char(text@[i as int - 1])),
        decreases n - i,
    {
        let c = text.get_char(i);
        let ws = char_is_whitespace(c);
        if !ws && prev_ws {
            count = count + 1;
        }
        proof {
            let tk = text@.take(i + 1);
            assert(tk.drop_last() =~= text@.take(i as int));
            assert(tk.last() == text@[i as int]);
        }
        prev_ws = ws;
        i = i + 1;
    }
    proof {
        assert(text@.take(n as int) =~= text@);
    }
    count
}

/// How many times the character `c` occurs in `t`.
pub open spec fn occurrences(t: Seq<char>, c: char) -> nat
    decreases t.len(),
{
    if t.len() == 0 {
        0
    } else {
        occurrences(t.drop_last(), c) + (if t.last() == c {
            1nat
        } else {
            0nat
        })
    }
}

/// A character occurs at most once per position.
proof fn lemma_occurrences_le_len(t: Seq<char>, c: char)
    ensures
        occurrences(t, c) <= t.len(),
        t.len() > 0 && t.last() != c ==> occurrences(t, c) <= t.len() - 1,
    decreases t.len(),
{
    if t.len() == 0 {
    } else {
        lemma_occurrences_le_len(t.drop_last(), c);
    }
}

/// The number of lines of `t`, as `str::lines` splits them: one line per
/// line feed, plus a final line when the text does not end with one; empty
/// text has no lines.
pub open spec fn line_count(t: Seq<char>) -> nat {
    if t.len() == 0 {
        0
    } else {
        occurrences(t, '\n') + (if t.last() == '\n' {
            0nat
        } else {
            1nat
        })
    }
}

/// Counts the lines of `text`.
#[verifier::loop_isolation(false)]
pub fn count_lines(text: &str) -> (r: usize)
    ensures
        r == line_count(text@),
{
    let n = text.unicode_len();
    if n == 0 {
        return 0;
    }
    let mut nl: usize = 0;
    let mut i: usize = 0;
    while i < n
        invariant
            0 <= i <= n,
            nl <= i,
            nl == occurrences(text@.take(i as int), '\n'),
        decreases n - i,
    {
        let c = text.get_char(i);
        if c == '\n' {
            nl = nl + 1;
        }
        proof {
            let tk = text@.take(i + 1);
            assert(tk.drop_last() =~= text@.take(i as int));
            assert(tk.last() == text@[i as int]);
        }
        i = i + 1;
    }
    proof {
        assert(text@.take(n as int) =~= text@);
    }
    let last = text.get_char(n - 1);
    if last == '\n' {
        nl
    } else {
        proof {
            lemma_occurrences_le_len(text@, '\n');
        }
        nl + 1
    }
}

/// `l` with one trailing carriage return removed, if it has one.
pub open spec fn strip_cr(l: Seq<char>) -> Seq<char> {
    if l.len() > 0 && l.last() == '\r' {
        l.drop_last()
    } else {
        l
    }
}

/// The lines of `t` read left to right with `cur` the partial line gathered
/// so far: each line feed ends a line (with one carriage return just before
/// it dropped), and a trailing line feed does not open an empty final line.
pub open spec fn lines_from(t: Seq<char>, cur: Seq<char>) -> Seq<Seq<char>>
    decreases t.len(),
{
    if t.len() == 0 {
        if cur.len() == 0 {
            Seq::empty()
        } else {
            seq![cur]
        }
    } else if t[0] == '\n' {
        seq![strip_cr(cur)] + lines_from(t.drop_first(), Seq::empty())
    } else {
        lines_from(t.drop_first(), cur.push(t[0]))
    }
}

/// The lines of `t`, as `str::lines` yields them.
pub open spec fn line_seq(t: Seq<char>) -> Seq<Seq<char>> {
    lines_from(t, Seq::empty())
}

/// Splits `text` into its lines.
#[verifier::loop_isolation(false)]
pub fn split_lines(text: &str) -> (r: Vec<String>)
    ensures
        string_views(r@) == line_seq(text@),
{
    let n = text.unicode_len();
    let mut r: Vec<String> = Vec::new();
    let mut start: usize = 0;
    let mut i: usize = 0;
    proof {
        assert(text@.skip(0) =~= text@);
        assert(text@.subrange(0, 0) =~= Seq::<char>::empty());
        assert(string_views(r@) + line_seq(text@) =~= line_seq(text@));
    }
    while i < n
        invariant
            0 <= start <= i <= n,
            line_seq(text@) == string_views(r@) + lines_from(
                text@.skip(i as int),
                text@.subrange(start as int, i as int),
            ),
        decreases n - i,
    {
        let ghost cur = text@.subrange(start as int, i as int);
        proof {
            assert(text@.skip(i as int)[0] == text@[i as int]);
            assert(text@.skip(i as int).drop_first() =~= text@.skip(i + 1));
        }
        let c = text.get_char(i);
        if c == '\n' {
            let mut endx: usize = i;
            if endx > start && text.get_char(endx - 1) == '\r' {
                endx = endx - 1;
            }
            proof {
                if i > start && text@[i as int - 1] == '\r' {
                    assert(cur.last() == text@[i as int - 1]);
                    assert(strip_cr(cur) =~= text@.subrange(start as int, i as int - 1));
                } else {
                    if cur.len() > 0 {
                        assert(cur.last() == text@[i as int - 1]);
                    }
                    assert(strip_cr(cur) == cur);
                }
                assert(strip_cr(cur) == text@.subrange(start as int, endx as int));
            }
            let line = text.substring_char(start, endx);
            let ghost before = r@;
            r.push(line.to_owned());
            proof {
                assert(string_views(r@) =~= string_views(before).push(strip_cr(cur)));
                assert(lines_from(text@.skip(i as int), cur) == seq![strip_cr(cur)] + lines_from(
                    text@.skip(i + 1),
                    Seq::empty(),
                ));
                assert(string_views(r@) + lines_from(text@.skip(i + 1), Seq::empty())
                    =~= string_views(before) + lines_from(text@.skip(i as int), cur));
                assert(text@.subrange(i + 1, i + 1) =~= Seq::<char>::empty());
            }
            start = i + 1;
        } else {
            proof {
                assert(lines_from(text@.skip(i as int), cur) == lines_from(
                    text@.skip(i + 1),
                    cur.push(text@[i as int]),
                ));
                assert(cur.push(text@[i as int]) =~= text@.subrange(start as int, i + 1));
            }
        }
        i = i + 1;
    }
    proof {
        assert(text@.skip(n as int) =~= Seq::<char>::empty());
    }
    if start < n {
        let line = text.substring_char(start, n);
        let ghost before = r@;
        r.push(line.to_owned());
        proof {
            let cur = text@.subrange(start as int, n as int);
            assert(cur.len() > 0);
            assert(lines_from(Seq::<char>::empty(), cur) == seq![cur]);
            assert(string_views(r@) =~= string_views(before).push(cur));
            assert(string_views(r@) =~= string_views(before) + seq![cur]);
        }
    } else {
        proof {
            let cur = text@.subrange(start as int, n as int);
            assert(cur.len() == 0);
            assert(lines_from(Seq::<char>::empty(), cur) =~= Seq::<Seq<char>>::empty());
            assert(string_views(r@) + Seq::<Seq<char>>::empty() =~= string_views(r@));
        }
    }
    r
}

/// The least of three naturals.
pub open spec fn min3(a: nat, b: nat, c: nat) -> nat {
    if a <= b && a <= c {
        a
    } else if b <= c {
        b
    } else {
        c
    }
}

/// The Levenshtein edit distance: the least number of single-character
/// insertions, deletions and substitutions that turns `a` into `b`.
pub open spec fn lev(a: Seq<char>, b: Seq<char>) -> nat
    decreases a.len(), b.len(),
{
    if a.len() == 0 {
        b.len()
    } else if b.len() == 0 {
        a.len()
    } else {
        let cost: nat = if a.last() == b.last() {
            0
        } else {
            1
        };
        min3(
            lev(a.drop_last(), b) + 1,
            lev(a, b.drop_last()) + 1,
            lev(a.drop_last(), b.drop_last()) + cost,
        )
    }
}

/// The edit distance never exceeds the longer length: at worst every
/// character of the longer string is rewritten.
pub proof fn lemma_lev_le_max(a: Seq<char>, b: Seq<char>)
    ensures
        lev(a, b) <= max(a.len() as int, b.len() as int),
    decreases a.len(), b.len(),
{
    if a.len() == 0 {
    } else if b.len() == 0 {
    } else {
        lemma_lev_le_max(a.drop_last(), b.drop_last());
    }
}

/// Computes the Levenshtein edit distance between `a` and `b` by dynamic
/// programming over prefix pairs, one row at a time.
#[verifier::loop_isolation(false)]
pub fn levenshtein_distance(a: &str, b: &str) -> (r: usize)
    requires
        a@.len() < usize::MAX,
        b@.len() < usize::MAX,
    ensures
        r == lev(a@, b@),
{
    let av = chars_of(a);
    let bv = chars_of(b);
    let n = av.len();
    let m = bv.len();
    proof {
        assert(a@.take(n as int) =~= a@);
        assert(b@.take(m as int) =~= b@);
    }
    if n == 0 {
        return m;
    }
    if m == 0 {
        return n;
    }
    let mut prev: Vec<usize> = Vec::new();
    let mut j: usize = 0;
    while j <= m
        invariant
            0 <= j <= m + 1,
            prev@.len() == j,
            forall|k: int| 0 <= k < j ==> prev@[k] == lev(a@.take(0), b@.take(k)),
        decreases m + 1 - j,
    {
        prev.push(j);
        proof {
            assert(a@.take(0) =~= Seq::<char>::empty());
            assert((b@.take(j as int)).len() == j as int);
        }
        j = j + 1;
    }
    let mut i: usize = 1;
    while i <= n
        invariant
            1 <= i <= n + 1,
            prev@.len() == m + 1,
            forall|k: int| 0 <= k <= m ==> prev@[k] == lev(a@.take(i - 1), b@.take(k)),
        decreases n + 1 - i,
    {
        let mut cur: Vec<usize> = Vec::new();
        cur.push(i);
        proof {
            assert(b@.take(0) =~= Seq::<char>::empty());
            assert((a@.take(i as int)).len() == i as int);
        }
        let mut j: usize = 1;
        while j <= m
            invariant
                1 <= i <= n,
                1 <= j <= m + 1,
                cur@.len() == j,
                forall|k: int| 0 <= k < j ==> cur@[k] == lev(a@.take(i as int), b@.take(k)),
            decreases m + 1 - j,
        {
            let cost: usize = if av[i - 1] == bv[j - 1] {
                0
            } else {
                1
            };
            proof {
                lemma_lev_le_max(a@.take(i - 1), b@.take(j as int));
                lemma_lev_le_max(a@.take(i as int), b@.take(j - 1));
                lemma_lev_le_max(a@.take(i - 1), b@.take(j - 1));
            }
            let deletion = prev[j] + 1;
            let insertion = cur[j - 1] + 1;
            let substitution = prev[j - 1] + cost;
            let mut best = if deletion < insertion {
                deletion
            } else {
                insertion
            };
            if substitution < best {
                best = substitution;
            }
            proof {
                let ap = a@.take(i as int);
                let bp = b@.take(j as int);
                assert(ap.drop_last() =~= a@.take(i - 1));
                assert(bp.drop_last() =~= b@.take(j - 1));
                assert(ap.last() == a@[i - 1]);
                assert(bp.last() == b@[j - 1]);
            }
            cur.push(best);
            j = j + 1;
        }
        prev = cur;
        i = i + 1;
    }
    prev[m]
}

/// Whether `p` occurs in `t` as a contiguous run starting at `i`.
pub open spec fn matches_at(t: Seq<char>, p: Seq<char>, i: int) -> bool {
    0 <= i && i + p.len() <= t.len() && t.subrange(i, i + p.len()) == p
}

/// Whether `p` occurs somewhere in `t`.
pub open spec fn contains_seq(t: Seq<char>, p: Seq<char>) -> bool {
    exists|i: int| matches_at(t, p, i)
}

/// Whether `p` starts at position `i` of `t`.
fn match_at(t: &Vec<char>, p: &Vec<char>, i: usize) -> (r: bool)
    requires
        i + p@.len() <= t@.len(),
    ensures
        r == matches_at(t@, p@, i as int),
{
    let tn = t.len();
    let pn = p.len();
    let mut j: usize = 0;
    while j < pn
        invariant
            tn == t@.len(),
            pn == p@.len(),
            i + pn <= t@.len(),
            0 <= j <= pn,
            forall|k: int| 0 <= k < j ==> t@[i + k] == p@[k],
        decreases pn - j,
    {
        if t[i + j] != p[j] {
            proof {
                let sub = t@.subrange(i as int, i + pn);
                assert(sub[j as int] == t@[i + j]);
            }
            return false;
        }
        j = j + 1;
    }
    proof {
        assert(t@.subrange(i as int, i + pn) =~= p@);
    }
    true
}

/// Whether `text` contains `substring`, case sensitively.
#[verifier::loop_isolation(false)]
pub fn contains(text: &str, substring: &str) -> (r: bool)
    ensures
        r == contains_seq(text@, substring@),
{
    let t = chars_of(text);
    let p = chars_of(substring);
    let tn = t.len();
    let pn = p.len();
    if pn > tn {
        proof {
            assert(forall|i: int| !matches_at(text@, substring@, i));
        }
        return false;
    }
    if pn == 0 {
        proof {
            assert(text@.subrange(0, 0) =~= substring@);
            assert(matches_at(text@, substring@, 0));
        }
        return true;
    }
    let mut i: usize = 0;
    while i <= tn - pn
        invariant
            pn <= tn,
            0 <= i <= tn - pn + 1,
            forall|k: int| 0 <= k < i ==> !matches_at(text@, substring@, k),
        decreases tn - pn - i + 1,
    {
        if match_at(&t, &p, i) {
            proof {
                assert(matches_at(text@, substring@, i as int));
            }
            return true;
        }
        i = i + 1;
    }
    proof {
        assert forall|k: int| !matches_at(text@, substring@, k) by {
            if 0 <= k <= tn - pn {
            }
        }
    }
    false
}

/// Whether `text` contains `substring` after lowercasing both, as
/// `str::to_lowercase` lowercases them.
pub fn contains_ignore_case(text: &str, substring: &str) -> (r: bool)
    ensures
        r == contains_seq(lower_of(text@), lower_of(substring@)),
{
    let lt = to_lowercase(text);
    let ls = to_lowercase(substring);
    contains(lt.as_str(), ls.as_str())
}

/// Whether `pattern` is a valid regular expression, as `regex::Regex::new`
/// decides it.
pub uninterp spec fn regex_ok(pattern: Seq<char>) -> bool;

/// The non-overlapping matches of `pattern` in `text`, leftmost first, as
/// `regex::Regex::find_iter` yields them.
pub uninterp spec fn regex_found(pattern: Seq<char>, text: Seq<char>) -> Seq<Seq<char>>;

/// `text` with every non-overlapping match of `pattern` replaced, as
/// `regex::Regex::replace_all` computes it.
pub uninterp spec fn regex_replaced(
    pattern: Seq<char>,
    text: Seq<char>,
    replacement: Seq<char>,
) -> Seq<char>;

/// Finds every match of the regular expression `pattern` in `text`.
/// Relies on regex::Regex::new, which compiles exactly the valid patterns,
/// and on regex::Regex::find_iter, whose matches are a function of the
/// pattern and the text alone; an invalid pattern is reported as a parse
/// error.
#[verifier::external_body]
pub fn regex_find_all(text: &str, pattern: &str) -> (r: Result<Vec<String>, ToolError>)
    ensures
        r is Ok <==> regex_ok(pattern@),
        r matches Ok(found) ==> string_views(found@) == regex_found(pattern@, text@),
        r matches Err(e) ==> e matches ToolError::ParseError(_),
{
    let regex = match regex::Regex::new(pattern) {
        Ok(re) => re,
        Err(e) => {
            return Err(ToolError::ParseError(format!("invalid regular expression: {}", e)));
        },
    };
    Ok(regex.find_iter(text).map(|m| m.as_str().to_string()).collect())
}

/// Replaces every match of the regular expression `pattern` in `text`.
/// Relies on regex::Regex::new, which compiles exactly the valid patterns,
/// and on regex::Regex::replace_all, whose result is a function of the
/// pattern, the text and the replacement alone; an invalid pattern is
/// reported as a parse error.
#[verifier::external_body]
pub fn regex_replace_all(text: &str, pattern: &str, replacement: &str) -> (r: Result<
    String,
    ToolError,
>)
    ensures
        r is Ok <==> regex_ok(pattern@),
        r matches Ok(s) ==> s@ == regex_replaced(pattern@, text@, replacement@),
        r matches Err(e) ==> e matches ToolError::ParseError(_),
{
    let regex = match regex::Regex::new(pattern) {
        Ok(re) => re,
        Err(e) => {
            return Err(ToolError::ParseError(format!("invalid regular expression: {}", e)));
        },
    };
    Ok(regex.replace_all(text, replacement).to_string())
}

} // verus!
