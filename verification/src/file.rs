use vstd::prelude::*;

use crate::strings::{chars_of, str_eq};

verus! {

use vstd::string::StrSliceExecFns;

/// The greatest index at which `c` occurs in `s`, or `-1` when it never
/// does.
pub open spec fn last_index_of(s: Seq<char>, c: char) -> int
    decreases s.len(),
{
    if s.len() == 0 {
        -1
    } else if s.last() == c {
        s.len() - 1
    } else {
        last_index_of(s.drop_last(), c)
    }
}

/// The last index stays within the sequence.
proof fn lemma_last_index_bounds(s: Seq<char>, c: char)
    ensures
        -1 <= last_index_of(s, c) < s.len(),
    decreases s.len(),
{
    if s.len() == 0 {
    } else if s.last() == c {
    } else {
        lemma_last_index_bounds(s.drop_last(), c);
    }
}

/// When `c` stands at `j` and nowhere later, `j` is the last index.
proof fn lemma_last_index_at(s: Seq<char>, c: char, j: int)
    requires
        0 <= j < s.len(),
        s[j] == c,
        forall|k: int| j < k < s.len() ==> s[k] != c,
    ensures
        last_index_of(s, c) == j,
    decreases s.len(),
{
    if j == s.len() - 1 {
    } else {
        lemma_last_index_at(s.drop_last(), c, j);
    }
}

/// When `c` occurs nowhere, the last index is `-1`.
proof fn lemma_last_index_none(s: Seq<char>, c: char)
    requires
        forall|k: int| 0 <= k < s.len() ==> s[k] != c,
    ensures
        last_index_of(s, c) == -1,
    decreases s.len(),
{
    if s.len() == 0 {
    } else {
        lemma_last_index_none(s.drop_last(), c);
    }
}

/// One past the last occurrence of `c` in `v`, or `0` when it never occurs.
fn find_cut(v: &Vec<char>, c: char) -> (r: usize)
    ensures
        r == last_index_of(v@, c) + 1,
{
    let mut i = v.len();
    while i > 0
        invariant
            i <= v@.len(),
            forall|k: int| i <= k < v@.len() ==> v@[k] != c,
        decreases i,
    {
        if v[i - 1] == c {
            proof {
                lemma_last_index_at(v@, c, i - 1);
            }
            return i;
        }
        i = i - 1;
    }
    proof {
        lemma_last_index_none(v@, c);
    }
    0
}

/// The part of `path` after its last `'/'` (all of it when there is none).
pub open spec fn base_name(path: Seq<char>) -> Seq<char> {
    path.subrange(last_index_of(path, '/') + 1, path.len() as int)
}

/// The file name of a `'/'`-separated path: the part after the last
/// separator, unless that part is empty or one of the relative components
/// `.` and `..`.
pub open spec fn file_name_of(path: Seq<char>) -> Option<Seq<char>> {
    let b = base_name(path);
    if b.len() == 0 || b == "."@ || b == ".."@ {
        None
    } else {
        Some(b)
    }
}

/// The extension of a `'/'`-separated path: what follows the last `'.'` of
/// the file name, unless the file name has no `'.'` past its first
/// character.
pub open spec fn extension_of(path: Seq<char>) -> Option<Seq<char>> {
    match file_name_of(path) {
        None => None,
        Some(b) => {
            let d = last_index_of(b, '.');
            if d <= 0 {
                None
            } else {
                Some(b.subrange(d + 1, b.len() as int))
            }
        },
    }
}

/// The file name of `path`, without any leading directories.
pub fn file_name(path: &str) -> (r: Option<String>)
    ensures
        match r {
            Some(s) => file_name_of(path@) == Some(s@),
            None => file_name_of(path@) is None,
        },
{
    let v = chars_of(path);
    let cut = find_cut(&v, '/');
    let n = v.len();
    proof {
        lemma_last_index_bounds(v@, '/');
    }
    let base = path.substring_char(cut, n);
    if base.is_empty() || str_eq(base, ".") || str_eq(base, "..") {
        None
    } else {
        Some(base.to_owned())
    }
}

/// The extension of `path`, without the dot.
pub fn file_extension(path: &str) -> (r: Option<String>)
    ensures
        match r {
            Some(s) => extension_of(path@) == Some(s@),
            None => extension_of(path@) is None,
        },
{
    let base = match file_name(path) {
        None => {
            return None;
        },
        Some(b) => b,
    };
    let bv = chars_of(base.as_str());
    let cut = find_cut(&bv, '.');
    if cut <= 1 {
        None
    } else {
        let n = bv.len();
        proof {
            lemma_last_index_bounds(bv@, '.');
        }
        Some(base.as_str().substring_char(cut, n).to_owned())
    }
}

} // verus!
