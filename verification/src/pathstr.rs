//! Paths as plain strings: joining with `/`, and taking a path apart
//! into file name, stem and extension. The model is a plain character
//! string; no normalization of repeated or trailing separators is done.

use vstd::prelude::*;
use vstd::string::*;
use crate::text::{chars_of, string_from_chars, subvec, push_all};

verus! {

/// The suffix of `s` after the last occurrence of `c`; all of `s` when
/// `c` does not occur.
pub open spec fn after_last(s: Seq<char>, c: char) -> Seq<char>
    decreases s.len(),
{
    if s.len() == 0 {
        s
    } else if s.last() == c {
        Seq::empty()
    } else {
        after_last(s.drop_last(), c).push(s.last())
    }
}

/// What `base/child` means for string paths: the two joined with one
/// separator, except that an empty base or a base already ending in the
/// separator adds none.
pub open spec fn join_spec(base: Seq<char>, child: Seq<char>) -> Seq<char> {
    if base.len() == 0 {
        child
    } else if base.last() == '/' {
        base + child
    } else {
        base + seq!['/'] + child
    }
}

/// The file-name portion of a path: everything after the last `/`.
pub open spec fn file_name_spec(p: Seq<char>) -> Seq<char> {
    after_last(p, '/')
}

/// True when the file name holds a `.` after its first character, so
/// that an extension can be split off. A leading dot alone marks a
/// hidden file, not an extension.
pub open spec fn has_extension_spec(p: Seq<char>) -> bool {
    exists|i: int| 1 <= i < file_name_spec(p).len() && file_name_spec(p)[i] == '.'
}

/// The extension of a path: what follows the last `.` of its file name.
/// Meaningful only when `has_extension_spec` holds.
pub open spec fn extension_spec(p: Seq<char>) -> Seq<char> {
    after_last(file_name_spec(p), '.')
}

/// The stem of a path: its file name, less the extension and its dot
/// when there is one.
pub open spec fn stem_spec(p: Seq<char>) -> Seq<char> {
    let name = file_name_spec(p);
    if has_extension_spec(p) {
        name.take(name.len() - extension_spec(p).len() - 1)
    } else {
        name
    }
}

/// The path with its file name replaced by `name`.
pub open spec fn with_file_name_spec(p: Seq<char>, name: Seq<char>) -> Seq<char> {
    p.take(p.len() - file_name_spec(p).len()) + name
}

/// When `c` occurs last at index `i`, the suffix after the last `c` is
/// exactly what follows `i`.
pub proof fn lemma_after_last_at(s: Seq<char>, c: char, i: int)
    requires
        0 <= i < s.len(),
        s[i] == c,
        forall|j: int| i < j < s.len() ==> s[j] != c,
    ensures
        after_last(s, c) == s.skip(i + 1),
    decreases s.len(),
{
    if s.last() == c {
        assert(i == s.len() - 1);
        assert(s.skip(i + 1) =~= Seq::empty());
    } else {
        assert(i < s.len() - 1);
        lemma_after_last_at(s.drop_last(), c, i);
        assert(s.drop_last().skip(i + 1).push(s.last()) =~= s.skip(i + 1));
    }
}

/// When `c` does not occur in `s`, the suffix after the last `c` is all
/// of `s`.
pub proof fn lemma_after_last_absent(s: Seq<char>, c: char)
    requires
        forall|j: int| 0 <= j < s.len() ==> s[j] != c,
    ensures
        after_last(s, c) == s,
    decreases s.len(),
{
    if s.len() > 0 {
        lemma_after_last_absent(s.drop_last(), c);
        assert(s.drop_last().push(s.last()) =~= s);
    }
}

/// The suffix after the last separator is never longer than the whole.
pub proof fn lemma_after_last_len(s: Seq<char>, c: char)
    ensures
        after_last(s, c).len() <= s.len(),
    decreases s.len(),
{
    if s.len() > 0 && s.last() != c {
        lemma_after_last_len(s.drop_last(), c);
    }
}

/// The suffix after the last separator holds no separator.
pub proof fn lemma_after_last_no_sep(s: Seq<char>, c: char)
    ensures
        forall|j: int| 0 <= j < after_last(s, c).len() ==> after_last(s, c)[j] != c,
    decreases s.len(),
{
    if s.len() > 0 && s.last() != c {
        lemma_after_last_no_sep(s.drop_last(), c);
        let r = after_last(s, c);
        let rp = after_last(s.drop_last(), c);
        assert forall|j: int| 0 <= j < r.len() implies r[j] != c by {
            if j < rp.len() {
                assert(r[j] == rp[j]);
            } else {
                assert(r[j] == s.last());
            }
        }
    }
}

/// Finds the last index of `c` in `v`.
pub fn rfind_char(v: &Vec<char>, c: char) -> (r: Option<usize>)
    ensures
        match r {
            Some(i) => i < v@.len() && v@[i as int] == c && forall|j: int|
                i < j < v@.len() ==> v@[j] != c,
            None => forall|j: int| 0 <= j < v@.len() ==> v@[j] != c,
        },
{
    let mut i: usize = v.len();
    while i > 0
        invariant
            i <= v@.len(),
            forall|j: int| i <= j < v@.len() ==> v@[j] != c,
        decreases i,
    {
        i = i - 1;
        if v[i] == c {
            return Some(i);
        }
    }
    None
}

/// Splits off the file-name portion of `path`: everything after its
/// last `/`.
pub fn file_name_chars(path: &Vec<char>) -> (r: Vec<char>)
    ensures
        r@ == file_name_spec(path@),
        r@.len() <= path@.len(),
{
    let n = path.len();
    match rfind_char(path, '/') {
        Some(i) => {
            proof {
                lemma_after_last_at(path@, '/', i as int);
            }
            subvec(path, i + 1, n)
        },
        None => {
            proof {
                lemma_after_last_absent(path@, '/');
            }
            subvec(path, 0, n)
        },
    }
}

/// Joins `base` and `child` with a single `/` separator.
pub fn path_join(base: &str, child: &str) -> (r: String)
    ensures
        r@ == join_spec(base@, child@),
{
    let b = chars_of(base);
    let c = chars_of(child);
    let mut out: Vec<char> = Vec::new();
    if b.len() == 0 {
        push_all(&mut out, &c);
    } else if b[b.len() - 1] == '/' {
        push_all(&mut out, &b);
        push_all(&mut out, &c);
    } else {
        push_all(&mut out, &b);
        out.push('/');
        push_all(&mut out, &c);
        proof {
            assert(out@ =~= base@ + seq!['/'] + child@);
        }
    }
    proof {
        assert(out@ =~= join_spec(base@, child@));
    }
    string_from_chars(&out)
}

/// Replaces the file-name portion of `path` by `name`: everything after
/// the last `/` is dropped and `name` appended.
pub fn with_file_name(path: &str, name: &str) -> (r: String)
    ensures
        r@ == with_file_name_spec(path@, name@),
{
    let chars = chars_of(path);
    let fname = file_name_chars(&chars);
    let mut out = subvec(&chars, 0, chars.len() - fname.len());
    push_all(&mut out, &chars_of(name));
    proof {
        assert(out@ =~= with_file_name_spec(path@, name@));
    }
    string_from_chars(&out)
}

/// The parent of a string path: everything before its last `/`; `None`
/// when the path has no separator.
pub open spec fn parent_spec(p: Seq<char>) -> Seq<char> {
    p.take(p.len() - file_name_spec(p).len() - 1)
}

/// True when the path has a `/`, so that a parent can be split off.
pub open spec fn has_parent_spec(p: Seq<char>) -> bool {
    exists|i: int| 0 <= i < p.len() && p[i] == '/'
}

/// Splits off the parent directory of `path`: everything before its
/// last `/`.
pub fn parent_chars(path: &Vec<char>) -> (r: Option<Vec<char>>)
    ensures
        match r {
            Some(v) => has_parent_spec(path@) && v@ == parent_spec(path@),
            None => !has_parent_spec(path@),
        },
{
    match rfind_char(path, '/') {
        Some(i) => {
            proof {
                lemma_after_last_at(path@, '/', i as int);
                assert(path@.skip(i + 1).len() == path@.len() - i - 1);
            }
            Some(subvec(path, 0, i))
        },
        None => None,
    }
}

} // verus!
