//! Character-level string utilities shared by the naming, organization,
//! validation and tag-matching modules. All logic works on `Vec<char>`
//! whose view is the same `Seq<char>` as the view of the `String` it
//! came from.

use vstd::prelude::*;
use vstd::string::*;

verus! {

/// Collects the characters of a string slice into a vector with the
/// same view.
pub fn chars_of(s: &str) -> (r: Vec<char>)
    ensures
        r@ == s@,
{
    let n = s.unicode_len();
    let mut r: Vec<char> = Vec::new();
    let mut i: usize = 0;
    while i < n
        invariant
            n == s@.len(),
            i <= n,
            r@ == s@.take(i as int),
        decreases n - i,
    {
        r.push(s.get_char(i));
        proof {
            assert(r@ =~= s@.take(i + 1 as int));
        }
        i = i + 1;
    }
    proof {
        assert(r@ =~= s@);
    }
    r
}

/// Relies on `String::push` from the standard library: appending one
/// character to a string appends exactly that character to its view.
#[verifier::external_body]
pub fn string_from_chars(v: &Vec<char>) -> (r: String)
    ensures
        r@ == v@,
{
    let mut s = String::new();
    for c in v.iter() {
        s.push(*c);
    }
    s
}

/// True when `needle` occurs in `hay` starting at index `i`.
pub open spec fn contains_at(hay: Seq<char>, i: int, needle: Seq<char>) -> bool {
    0 <= i && i + needle.len() <= hay.len() && hay.subrange(i, i + needle.len()) == needle
}

/// True when `needle` occurs somewhere in `hay`.
pub open spec fn contains_seq(hay: Seq<char>, needle: Seq<char>) -> bool {
    exists|i: int| contains_at(hay, i, needle)
}

/// True when `hay` begins with `pre`.
pub open spec fn starts_with_seq(hay: Seq<char>, pre: Seq<char>) -> bool {
    pre.len() <= hay.len() && hay.subrange(0, pre.len() as int) == pre
}

/// Decides whether the characters of `a` equal those of `b`.
pub fn chars_eq(a: &[char], b: &[char]) -> (r: bool)
    ensures
        r == (a@ == b@),
{
    if a.len() != b.len() {
        proof {
            assert(a@ != b@);
        }
        return false;
    }
    let n = a.len();
    let mut i: usize = 0;
    while i < n
        invariant
            n == a@.len() == b@.len(),
            i <= n,
            forall|j: int| 0 <= j < i ==> a@[j] == b@[j],
        decreases n - i,
    {
        if a[i] != b[i] {
            return false;
        }
        i = i + 1;
    }
    proof {
        assert(a@ =~= b@);
    }
    true
}

/// Decides whether `needle` occurs in `hay` at exactly index `i`.
pub fn matches_at(hay: &Vec<char>, i: usize, needle: &Vec<char>) -> (r: bool)
    requires
        i + needle@.len() <= hay@.len(),
    ensures
        r == contains_at(hay@, i as int, needle@),
{
    let n = needle.len();
    let hl = hay.len();
    let mut j: usize = 0;
    while j < n
        invariant
            n == needle@.len(),
            hl == hay@.len(),
            i + n <= hl,
            j <= n,
            forall|k: int| 0 <= k < j ==> hay@[i + k] == needle@[k],
        decreases n - j,
    {
        if hay[i + j] != needle[j] {
            proof {
                assert(hay@.subrange(i as int, i + needle@.len())[j as int] == hay@[i + j]);
            }
            return false;
        }
        j = j + 1;
    }
    proof {
        assert(hay@.subrange(i as int, i + needle@.len()) =~= needle@);
    }
    true
}

/// Finds the first occurrence of `needle` in `hay` at an index of at
/// least `from`; `None` when there is none.
pub fn find_seq(hay: &Vec<char>, needle: &Vec<char>, from: usize) -> (r: Option<usize>)
    ensures
        match r {
            Some(i) => from <= i && contains_at(hay@, i as int, needle@) && forall|j: int|
                from <= j < i ==> !contains_at(hay@, j, needle@),
            None => forall|j: int| from <= j ==> !contains_at(hay@, j, needle@),
        },
{
    if needle.len() > hay.len() {
        return None;
    }
    if needle.len() == 0 {
        if from <= hay.len() {
            proof {
                assert(hay@.subrange(from as int, from as int) =~= needle@);
            }
            return Some(from);
        } else {
            return None;
        }
    }
    let last = hay.len() - needle.len();
    let mut i: usize = from;
    while i <= last
        invariant
            0 < needle@.len() <= hay@.len(),
            hay@.len() <= usize::MAX,
            last == hay@.len() - needle@.len(),
            from <= i,
            forall|j: int| from <= j < i ==> !contains_at(hay@, j, needle@),
        decreases last + 1 - i,
    {
        if matches_at(hay, i, needle) {
            return Some(i);
        }
        i = i + 1;
    }
    None
}

/// Decides whether `hay` begins with `pre`.
pub fn starts_with(hay: &Vec<char>, pre: &Vec<char>) -> (r: bool)
    ensures
        r == starts_with_seq(hay@, pre@),
{
    if pre.len() > hay.len() {
        return false;
    }
    matches_at(hay, 0, pre)
}

/// Finds the first index of `c` in `hay` at or after `from`.
pub fn find_char(hay: &Vec<char>, c: char, from: usize) -> (r: Option<usize>)
    ensures
        match r {
            Some(i) => from <= i < hay@.len() && hay@[i as int] == c && forall|j: int|
                from <= j < i ==> hay@[j] != c,
            None => forall|j: int| from <= j < hay@.len() ==> hay@[j] != c,
        },
{
    let n = hay.len();
    let mut i: usize = from;
    while i < n
        invariant
            n == hay@.len(),
            from <= i,
            forall|j: int| from <= j < i ==> hay@[j] != c,
        decreases n - i,
    {
        if hay[i] == c {
            return Some(i);
        }
        i = i + 1;
    }
    None
}

/// Copies the characters of `v` between `from` and `to`.
pub fn subvec(v: &Vec<char>, from: usize, to: usize) -> (r: Vec<char>)
    requires
        from <= to <= v@.len(),
    ensures
        r@ == v@.subrange(from as int, to as int),
{
    let mut r: Vec<char> = Vec::new();
    let mut i: usize = from;
    while i < to
        invariant
            from <= i <= to <= v@.len(),
            r@ == v@.subrange(from as int, i as int),
        decreases to - i,
    {
        r.push(v[i]);
        proof {
            assert(r@ =~= v@.subrange(from as int, i + 1 as int));
        }
        i = i + 1;
    }
    r
}

/// Appends all characters of `src` to `dst`.
pub fn push_all(dst: &mut Vec<char>, src: &Vec<char>)
    ensures
        final(dst)@ == old(dst)@ + src@,
{
    let n = src.len();
    let mut i: usize = 0;
    while i < n
        invariant
            n == src@.len(),
            i <= n,
            dst@ == old(dst)@ + src@.take(i as int),
        decreases n - i,
    {
        dst.push(src[i]);
        proof {
            assert(old(dst)@ + src@.take(i + 1 as int) =~= (old(dst)@ + src@.take(i as int)).push(
                src@[i as int],
            ));
        }
        i = i + 1;
    }
    proof {
        assert(src@.take(n as int) =~= src@);
    }
}

/// The result of substituting `to` for every non-overlapping occurrence
/// of `from`, scanning left to right.
pub open spec fn replace_seq(s: Seq<char>, from: Seq<char>, to: Seq<char>) -> Seq<char>
    decreases s.len(),
    when from.len() > 0
{
    if s.len() < from.len() {
        s
    } else if s.subrange(0, from.len() as int) == from {
        to + replace_seq(s.skip(from.len() as int), from, to)
    } else {
        seq![s[0]] + replace_seq(s.skip(1), from, to)
    }
}

/// Substitutes `to` for every non-overlapping occurrence of `from` in
/// `s`, scanning left to right.
pub fn replace_all(s: &Vec<char>, from: &Vec<char>, to: &Vec<char>) -> (r: Vec<char>)
    requires
        from@.len() > 0,
    ensures
        r@ == replace_seq(s@, from@, to@),
{
    let mut out: Vec<char> = Vec::new();
    let mut i: usize = 0;
    let n = s.len();
    proof {
        assert(s@.skip(0) =~= s@);
    }
    while i < n
        invariant
            from@.len() > 0,
            n == s@.len(),
            i <= n,
            replace_seq(s@, from@, to@) == out@ + replace_seq(s@.skip(i as int), from@, to@),
        decreases n - i,
    {
        if from.len() <= n - i && matches_at(s, i, from) {
            push_all(&mut out, to);
            proof {
                assert(s@.skip(i as int).subrange(0, from@.len() as int) =~= s@.subrange(
                    i as int,
                    i + from@.len(),
                ));
                assert(s@.skip(i as int).skip(from@.len() as int) =~= s@.skip(
                    i + from@.len(),
                ));
            }
            i = i + from.len();
        } else {
            proof {
                let rest = s@.skip(i as int);
                if i + from@.len() <= n {
                    assert(s@.skip(i as int).subrange(0, from@.len() as int) =~= s@.subrange(
                        i as int,
                        i + from@.len(),
                    ));
                }
                assert(rest.len() >= 1);
                assert(seq![rest[0]] =~= Seq::empty().push(s@[i as int]));
                assert(s@.skip(i as int).skip(1) =~= s@.skip(i + 1));
                assert(out@ + (seq![rest[0]] + replace_seq(s@.skip(i + 1), from@, to@)) =~= out@.push(
                    s@[i as int],
                ) + replace_seq(s@.skip(i + 1), from@, to@));
            }
            out.push(s[i]);
            i = i + 1;
        }
    }
    proof {
        assert(s@.skip(n as int) =~= Seq::<char>::empty());
        assert(out@ + Seq::<char>::empty() =~= out@);
    }
    out
}

/// The parts of `s` between occurrences of `c`: what Rust's `split`
/// yields, one part more than there are separators, empty parts kept.
pub open spec fn split_char(s: Seq<char>, c: char) -> Seq<Seq<char>>
    decreases s.len(),
{
    if s.len() == 0 {
        seq![Seq::empty()]
    } else if s[0] == c {
        seq![Seq::<char>::empty()] + split_char(s.skip(1), c)
    } else {
        let rest = split_char(s.skip(1), c);
        seq![seq![s[0]] + rest[0]] + rest.skip(1)
    }
}

/// Splitting yields at least one part.
pub proof fn lemma_split_len_pos(s: Seq<char>, c: char)
    ensures
        split_char(s, c).len() >= 1,
    decreases s.len(),
{
    if s.len() > 0 {
        lemma_split_len_pos(s.skip(1), c);
    }
}

/// When the first separator stands at `i`, the first part is what
/// precedes it and the rest is the split of what follows it.
pub proof fn lemma_split_first_occ(s: Seq<char>, c: char, i: int)
    requires
        0 <= i < s.len(),
        s[i] == c,
        forall|j: int| 0 <= j < i ==> s[j] != c,
    ensures
        split_char(s, c) == seq![s.take(i)] + split_char(s.skip(i + 1), c),
    decreases i,
{
    lemma_split_len_pos(s.skip(1), c);
    if i == 0 {
        assert(s.take(0) =~= Seq::<char>::empty());
        assert(split_char(s, c) =~= seq![s.take(0)] + split_char(s.skip(1), c));
    } else {
        let t = s.skip(1);
        assert(t[i - 1] == c);
        assert(forall|j: int| 0 <= j < i - 1 ==> t[j] != c);
        lemma_split_first_occ(t, c, i - 1);
        lemma_split_len_pos(t.skip(i), c);
        assert(t.skip(i) =~= s.skip(i + 1));
        assert(split_char(t, c)[0] == t.take(i - 1));
        assert(seq![s[0]] + t.take(i - 1) =~= s.take(i));
        assert(split_char(t, c).skip(1) =~= split_char(s.skip(i + 1), c));
        assert(split_char(s, c) =~= seq![s.take(i)] + split_char(s.skip(i + 1), c));
    }
}

/// When the separator does not occur, the only part is the whole
/// sequence.
pub proof fn lemma_split_no_occ(s: Seq<char>, c: char)
    requires
        forall|j: int| 0 <= j < s.len() ==> s[j] != c,
    ensures
        split_char(s, c) == seq![s],
    decreases s.len(),
{
    if s.len() == 0 {
        assert(s =~= Seq::<char>::empty());
        assert(split_char(s, c) =~~= seq![s]);
    } else {
        lemma_split_no_occ(s.skip(1), c);
        assert(seq![s[0]] + s.skip(1) =~= s);
        assert(seq![s.skip(1)].skip(1) =~= Seq::<Seq<char>>::empty());
        assert(split_char(s, c) =~~= seq![s]);
    }
}

/// Splits `v` on every occurrence of `c`, keeping empty parts.
pub fn split_on(v: &Vec<char>, c: char) -> (r: Vec<Vec<char>>)
    ensures
        r.deep_view() == split_char(v@, c),
        r@.len() >= 1,
{
    let n = v.len();
    let mut parts: Vec<Vec<char>> = Vec::new();
    let mut pos: usize = 0;
    proof {
        assert(v@.skip(0) =~= v@);
    }
    loop
        invariant
            n == v@.len(),
            pos <= n,
            split_char(v@, c) == parts.deep_view() + split_char(v@.skip(pos as int), c),
        decreases n - pos,
    {
        let ghost old_dv = parts.deep_view();
        match find_char(v, c, pos) {
            Some(i) => {
                let part = subvec(v, pos, i);
                proof {
                    let rest = v@.skip(pos as int);
                    assert(rest[i - pos] == c);
                    assert(forall|j: int| 0 <= j < i - pos ==> rest[j] != c);
                    lemma_split_first_occ(rest, c, i - pos);
                    assert(rest.take(i - pos) =~= v@.subrange(pos as int, i as int));
                    assert(rest.skip(i - pos + 1) =~= v@.skip(i + 1));
                }
                parts.push(part);
                proof {
                    assert(parts.deep_view() =~~= old_dv.push(v@.subrange(pos as int, i as int)));
                    assert(old_dv.push(v@.subrange(pos as int, i as int)) + split_char(
                        v@.skip(i + 1),
                        c,
                    ) =~= old_dv + (seq![v@.subrange(pos as int, i as int)] + split_char(
                        v@.skip(i + 1),
                        c,
                    )));
                }
                pos = i + 1;
            },
            None => {
                let part = subvec(v, pos, n);
                proof {
                    let rest = v@.skip(pos as int);
                    assert(forall|j: int| 0 <= j < rest.len() ==> rest[j] != c);
                    lemma_split_no_occ(rest, c);
                    assert(rest =~= v@.subrange(pos as int, n as int));
                }
                parts.push(part);
                proof {
                    assert(parts.deep_view() =~~= old_dv.push(v@.subrange(pos as int, n as int)));
                    assert(old_dv.push(v@.subrange(pos as int, n as int)) =~= old_dv + seq![
                        v@.subrange(pos as int, n as int),
                    ]);
                    assert(parts.deep_view() =~~= split_char(v@, c));
                }
                return parts;
            },
        }
    }
}

/// Replaces every occurrence of one character by another.
pub fn replace_char(v: &Vec<char>, from: char, to: char) -> (r: Vec<char>)
    ensures
        r@ == replace_seq(v@, seq![from], seq![to]),
{
    let mut f: Vec<char> = Vec::new();
    f.push(from);
    let mut t: Vec<char> = Vec::new();
    t.push(to);
    proof {
        assert(f@ =~= seq![from]);
        assert(t@ =~= seq![to]);
    }
    replace_all(v, &f, &t)
}

/// The lowercase form of one character, for ASCII letters only.
pub open spec fn lower_char(c: char) -> char {
    if 'A' <= c && c <= 'Z' {
        ((c as u8) + 32) as char
    } else {
        c
    }
}

/// The ASCII-lowercase form of a character sequence.
pub open spec fn lower_seq(s: Seq<char>) -> Seq<char> {
    s.map_values(|c: char| lower_char(c))
}

/// Lowercases the ASCII letters of `v`, leaving other characters as
/// they are.
pub fn ascii_lower(v: &Vec<char>) -> (r: Vec<char>)
    ensures
        r@ == lower_seq(v@),
{
    let n = v.len();
    let mut r: Vec<char> = Vec::new();
    let mut i: usize = 0;
    while i < n
        invariant
            n == v@.len(),
            i <= n,
            r@ == lower_seq(v@.take(i as int)),
        decreases n - i,
    {
        let c = v[i];
        if 'A' <= c && c <= 'Z' {
            r.push((((c as u32) + 32) as u8) as char);
        } else {
            r.push(c);
        }
        proof {
            assert(lower_seq(v@.take(i + 1 as int)) =~= lower_seq(v@.take(i as int)).push(
                lower_char(v@[i as int]),
            ));
        }
        i = i + 1;
    }
    proof {
        assert(v@.take(n as int) =~= v@);
    }
    r
}

/// True for the characters kebab-case allows: lowercase ASCII letters,
/// digits and hyphens.
pub open spec fn is_kebab_char(c: char) -> bool {
    ('a' <= c && c <= 'z') || ('0' <= c && c <= '9') || c == '-'
}

/// A valid kebab-case word: non-empty, kebab characters only, no
/// leading or trailing hyphen, no two hyphens in a row.
pub open spec fn valid_kebab(s: Seq<char>) -> bool {
    &&& s.len() > 0
    &&& forall|i: int| 0 <= i < s.len() ==> is_kebab_char(s[i])
    &&& s[0] != '-'
    &&& s[s.len() - 1] != '-'
    &&& forall|i: int| 0 <= i < s.len() - 1 ==> !(#[trigger] s[i] == '-' && s[i + 1] == '-')
}

/// Finds the first character of `v` outside the kebab-case alphabet.
pub fn find_non_kebab_char(v: &Vec<char>) -> (r: Option<usize>)
    ensures
        match r {
            Some(i) => i < v@.len() && !is_kebab_char(v@[i as int]),
            None => forall|i: int| 0 <= i < v@.len() ==> is_kebab_char(v@[i]),
        },
{
    let n = v.len();
    let mut i: usize = 0;
    while i < n
        invariant
            n == v@.len(),
            forall|j: int| 0 <= j < i ==> is_kebab_char(v@[j]),
        decreases n - i,
    {
        let c = v[i];
        if !(('a' <= c && c <= 'z') || ('0' <= c && c <= '9') || c == '-') {
            return Some(i);
        }
        i = i + 1;
    }
    None
}

/// Decides whether `v` holds two hyphens in a row.
pub fn has_double_hyphen(v: &Vec<char>) -> (r: bool)
    ensures
        r == exists|i: int| 0 <= i < v@.len() - 1 && #[trigger] v@[i] == '-' && v@[i + 1] == '-',
{
    let n = v.len();
    if n < 2 {
        return false;
    }
    let mut i: usize = 0;
    while i < n - 1
        invariant
            n == v@.len(),
            n >= 2,
            i <= n - 1,
            forall|j: int| 0 <= j < i ==> !(#[trigger] v@[j] == '-' && v@[j + 1] == '-'),
        decreases n - i,
    {
        if v[i] == '-' && v[i + 1] == '-' {
            return true;
        }
        i = i + 1;
    }
    false
}

/// True for the ten ASCII digits.
pub open spec fn is_digit(c: char) -> bool {
    '0' <= c && c <= '9'
}

/// The numeric value of one ASCII digit.
pub open spec fn digit_val(c: char) -> int {
    c as int - '0' as int
}

/// The numeric value of a sequence of ASCII digits, most significant
/// first.
pub open spec fn digits_val(s: Seq<char>) -> int
    decreases s.len(),
{
    if s.len() == 0 {
        0
    } else {
        digits_val(s.drop_last()) * 10 + digit_val(s.last())
    }
}

/// True when every character of `s` is an ASCII digit.
pub open spec fn all_digits(s: Seq<char>) -> bool {
    forall|i: int| 0 <= i < s.len() ==> is_digit(s[i])
}

/// Parses the digit run `v[from..to]` as a number, most significant
/// digit first.
pub fn parse_digits(v: &Vec<char>, from: usize, to: usize) -> (r: u32)
    requires
        from <= to <= v@.len(),
        to - from <= 9,
        all_digits(v@.subrange(from as int, to as int)),
    ensures
        r == digits_val(v@.subrange(from as int, to as int)),
{
    let mut r: u32 = 0;
    let mut i: usize = from;
    proof {
        lemma_digits_val_bound(v@.subrange(from as int, to as int));
    }
    while i < to
        invariant
            from <= i <= to <= v@.len(),
            to - from <= 9,
            all_digits(v@.subrange(from as int, to as int)),
            r == digits_val(v@.subrange(from as int, i as int)),
            r < 1000000000,
        decreases to - i,
    {
        proof {
            assert(v@.subrange(from as int, i + 1 as int).drop_last() =~= v@.subrange(
                from as int,
                i as int,
            ));
            assert(v@.subrange(from as int, to as int)[i - from] == v@[i as int]);
            lemma_digits_val_bound(v@.subrange(from as int, i + 1 as int));
        }
        let c = v[i];
        r = r * 10 + (((c as u32) - 48) as u32);
        i = i + 1;
    }
    r
}

/// Ten to the `n`-th power.
pub open spec fn pow10(n: nat) -> int
    decreases n,
{
    if n == 0 {
        1
    } else {
        10 * pow10((n - 1) as nat)
    }
}

/// A run of `n` digits is worth at least zero and less than `10^n`.
pub proof fn lemma_digits_val_pow(s: Seq<char>)
    requires
        all_digits(s),
    ensures
        0 <= digits_val(s) < pow10(s.len()),
    decreases s.len(),
{
    if s.len() > 0 {
        assert(all_digits(s.drop_last()));
        lemma_digits_val_pow(s.drop_last());
    }
}

/// The bound the parser needs: nine digits stay under a billion.
proof fn lemma_digits_val_bound(s: Seq<char>)
    requires
        all_digits(s),
        s.len() <= 9,
    ensures
        0 <= digits_val(s) < 1000000000,
{
    lemma_digits_val_pow(s);
    assert(pow10(9) == 1000000000) by {
        reveal_with_fuel(pow10, 10);
    }
    lemma_pow10_increases(s.len(), 9);
}

/// `pow10` grows with its argument.
proof fn lemma_pow10_increases(a: nat, b: nat)
    requires
        a <= b,
    ensures
        pow10(a) <= pow10(b),
    decreases b,
{
    if a < b {
        lemma_pow10_increases(a, (b - 1) as nat);
        lemma_digits_pow10_pos(a);
    }
}

/// `pow10` is positive.
proof fn lemma_digits_pow10_pos(n: nat)
    ensures
        pow10(n) >= 1,
    decreases n,
{
    if n > 0 {
        lemma_digits_pow10_pos((n - 1) as nat);
    }
}

} // verus!
