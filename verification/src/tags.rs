//! The tag dictionary: a deduplicated set of validated kebab-case tags
//! with fuzzy lookup. Similarity is one minus the edit distance divided
//! by the longer length, raised by prefix, word-boundary and
//! early-position bonuses and capped at one; matches scoring above
//! three tenths are ranked best first, ties keeping dictionary order.

use vstd::prelude::*;
use vstd::string::*;
use crate::document::kebab_flaw;
use crate::error::CleanboxError;
use crate::filesystem::FileManager;
use crate::text::{
    chars_of, chars_eq, contains_at, contains_seq, find_seq, push_all, split_char, split_on,
    starts_with, starts_with_seq, string_from_chars, subvec, valid_kebab,
};

verus! {

/// Checks a single tag against the kebab-case rules; accepts exactly
/// the valid kebab-case words.
pub fn validate_tag_format(tag: &str) -> (r: Result<(), CleanboxError>)
    ensures
        r is Ok <==> valid_kebab(tag@),
        r matches Err(e) ==> e is InvalidUserInput,
{
    let chars = chars_of(tag);
    match kebab_flaw(&chars) {
        0 => Ok(()),
        1 => Err(CleanboxError::InvalidUserInput("Tag cannot be empty".to_owned())),
        2 => Err(
            CleanboxError::InvalidUserInput(
                "Tag must be in kebab-case (lowercase, numbers, hyphens only): ".to_owned()
                    .concat(tag),
            ),
        ),
        3 => Err(
            CleanboxError::InvalidUserInput(
                "Tag cannot start or end with hyphen: ".to_owned().concat(tag),
            ),
        ),
        _ => Err(
            CleanboxError::InvalidUserInput(
                "Tag cannot contain consecutive hyphens: ".to_owned().concat(tag),
            ),
        ),
    }
}

/// The larger of two lengths.
pub open spec fn spec_max(a: int, b: int) -> int {
    if a >= b {
        a
    } else {
        b
    }
}

/// The smallest of three values.
pub open spec fn min3(x: int, y: int, z: int) -> int {
    if x <= y && x <= z {
        x
    } else if y <= z {
        y
    } else {
        z
    }
}

/// The edit distance between two character sequences: the least number
/// of single-character insertions, deletions and substitutions turning
/// one into the other.
pub open spec fn lev(a: Seq<char>, b: Seq<char>) -> int
    decreases a.len() + b.len(),
{
    if a.len() == 0 {
        b.len() as int
    } else if b.len() == 0 {
        a.len() as int
    } else {
        let cost: int = if a.last() == b.last() {
            0
        } else {
            1
        };
        min3(
            lev(a.drop_last(), b) + 1,
            lev(a, b.drop_last()) + 1,
            lev(a.drop_last(), b.drop_last()) + cost,
        )
    }
}

/// The edit distance never exceeds the longer length, and is never
/// negative.
pub proof fn lemma_lev_le_max(a: Seq<char>, b: Seq<char>)
    ensures
        0 <= lev(a, b) <= spec_max(a.len() as int, b.len() as int),
    decreases a.len() + b.len(),
{
    if a.len() > 0 && b.len() > 0 {
        lemma_lev_le_max(a.drop_last(), b);
        lemma_lev_le_max(a, b.drop_last());
        lemma_lev_le_max(a.drop_last(), b.drop_last());
    }
}

/// Computes the edit distance between two character vectors by the
/// usual row-by-row dynamic program.
pub fn levenshtein(a: &Vec<char>, b: &Vec<char>) -> (r: usize)
    ensures
        r == lev(a@, b@),
{
    let m = a.len();
    let n = b.len();
    let mut prev: Vec<usize> = Vec::new();
    prev.push(0);
    proof {
        assert(b@.take(0) =~= Seq::<char>::empty());
    }
    let mut j: usize = 0;
    while j < n
        invariant
            n == b@.len(),
            j <= n,
            prev@.len() == j + 1,
            forall|k: int| 0 <= k <= j ==> prev@[k] == lev(Seq::<char>::empty(), b@.take(k)),
        decreases n - j,
    {
        prev.push(j + 1);
        proof {
            assert(b@.take(j + 1 as int).len() == j + 1);
        }
        j = j + 1;
    }
    proof {
        assert(a@.take(0) =~= Seq::<char>::empty());
    }
    let mut i: usize = 0;
    while i < m
        invariant
            m == a@.len(),
            n == b@.len(),
            i <= m,
            prev@.len() == n + 1,
            forall|k: int| 0 <= k <= n ==> prev@[k] == lev(a@.take(i as int), b@.take(k)),
        decreases m - i,
    {
        let row = i + 1;
        let mut cur: Vec<usize> = Vec::new();
        cur.push(row);
        proof {
            assert(a@.take(row as int).len() == row);
            assert(b@.take(0) =~= Seq::<char>::empty());
        }
        let mut j: usize = 0;
        while j < n
            invariant
                m == a@.len(),
                n == b@.len(),
                i < m,
                row == i + 1,
                j <= n,
                prev@.len() == n + 1,
                forall|k: int| 0 <= k <= n ==> prev@[k] == lev(a@.take(i as int), b@.take(k)),
                cur@.len() == j + 1,
                forall|k: int| 0 <= k <= j ==> cur@[k] == lev(a@.take(row as int), b@.take(k)),
            decreases n - j,
        {
            let col = j + 1;
            proof {
                lemma_lev_le_max(a@.take(i as int), b@.take(j as int));
                lemma_lev_le_max(a@.take(i as int), b@.take(col as int));
                lemma_lev_le_max(a@.take(row as int), b@.take(j as int));
                assert(a@.take(row as int).drop_last() =~= a@.take(i as int));
                assert(b@.take(col as int).drop_last() =~= b@.take(j as int));
                assert(a@.take(row as int).last() == a@[i as int]);
                assert(b@.take(col as int).last() == b@[j as int]);
            }
            let cost: usize = if a[i] == b[j] {
                0
            } else {
                1
            };
            let mut d = prev[j] + cost;
            if prev[col] < d {
                d = prev[col] + 1;
            }
            if cur[j] < d {
                d = cur[j] + 1;
            }
            cur.push(d);
            j = j + 1;
        }
        prev = cur;
        i = i + 1;
    }
    proof {
        assert(a@.take(m as int) =~= a@);
        assert(b@.take(n as int) =~= b@);
    }
    prev[n]
}

/// True when the tag starts with the query.
pub open spec fn prefix_bonus(q: Seq<char>, t: Seq<char>) -> bool {
    starts_with_seq(t, q)
}

/// True when the tag holds the query right after a hyphen: the query
/// matches a hyphen-separated component.
pub open spec fn word_bonus(q: Seq<char>, t: Seq<char>) -> bool {
    contains_seq(t, seq!['-'] + q)
}

/// True when the query occurs in the tag at an index of at most two.
pub open spec fn early_bonus(q: Seq<char>, t: Seq<char>) -> bool {
    exists|i: int| 0 <= i <= 2 && contains_at(t, i, q)
}

/// The bonuses a pair earns, in tenths: five for a prefix match, two
/// for a word-boundary match, one for an early occurrence.
pub open spec fn bonus_tenths(q: Seq<char>, t: Seq<char>) -> int {
    (if prefix_bonus(q, t) {
        5int
    } else {
        0int
    }) + (if word_bonus(q, t) {
        2int
    } else {
        0int
    }) + (if early_bonus(q, t) {
        1int
    } else {
        0int
    })
}

/// The denominator of the exact similarity score: ten times the longer
/// length.
pub open spec fn score_den(q: Seq<char>, t: Seq<char>) -> int {
    10 * spec_max(q.len() as int, t.len() as int)
}

/// The numerator of the exact similarity score: the normalized edit
/// distance score plus the bonuses, capped at one. The score itself is
/// this over `score_den`.
pub open spec fn score_num(q: Seq<char>, t: Seq<char>) -> int {
    let maxlen = spec_max(q.len() as int, t.len() as int);
    let raw = 10 * (maxlen - lev(q, t)) + bonus_tenths(q, t) * maxlen;
    if raw > 10 * maxlen {
        10 * maxlen
    } else {
        raw
    }
}

/// One fuzzy match: the tag, its edit distance from the query, and the
/// exact similarity score as a fraction.
#[derive(Debug)]
pub struct SimilarTag {
    pub tag: String,
    pub distance: usize,
    pub similarity_num: u128,
    pub similarity_den: u128,
}

/// The match record `find_similar` builds for one tag.
pub open spec fn candidate(q: Seq<char>, tag: String) -> SimilarTag {
    SimilarTag {
        tag,
        distance: lev(q, tag@) as usize,
        similarity_num: score_num(q, tag@) as u128,
        similarity_den: score_den(q, tag@) as u128,
    }
}

/// True when the score is above the three-tenths cutoff.
pub open spec fn above_cutoff(q: Seq<char>, t: Seq<char>) -> bool {
    score_num(q, t) > 3 * spec_max(q.len() as int, t.len() as int)
}

/// The tags that survive the cutoff, in dictionary order.
pub open spec fn survivors(q: Seq<char>, tags: Seq<String>) -> Seq<SimilarTag>
    decreases tags.len(),
{
    if tags.len() == 0 {
        Seq::empty()
    } else {
        let rest = survivors(q, tags.drop_last());
        if above_cutoff(q, tags.last()@) {
            rest.push(candidate(q, tags.last()))
        } else {
            rest
        }
    }
}

/// Strictly smaller similarity, compared exactly as fractions.
pub open spec fn score_lt(a: SimilarTag, b: SimilarTag) -> bool {
    (a.similarity_num as int) * (b.similarity_den as int) < (b.similarity_num as int) * (
    a.similarity_den as int)
}

/// Inserts a match behind every already-ranked match that scores at
/// least as well: later dictionary entries never overtake ties.
pub open spec fn insert_desc(x: SimilarTag, s: Seq<SimilarTag>) -> Seq<SimilarTag>
    decreases s.len(),
{
    if s.len() == 0 {
        seq![x]
    } else if score_lt(s[0], x) {
        seq![x] + s
    } else {
        seq![s[0]] + insert_desc(x, s.skip(1))
    }
}

/// Stable insertion sort by similarity, best first.
pub open spec fn sort_desc(s: Seq<SimilarTag>) -> Seq<SimilarTag>
    decreases s.len(),
{
    if s.len() == 0 {
        s
    } else {
        insert_desc(s.last(), sort_desc(s.drop_last()))
    }
}

/// What `find_similar` returns: nothing on an empty query, otherwise
/// the surviving matches ranked best first and cut to `max` entries.
pub open spec fn find_similar_spec(q: Seq<char>, tags: Seq<String>, max: int) -> Seq<SimilarTag> {
    if q.len() == 0 {
        Seq::empty()
    } else {
        let r = sort_desc(survivors(q, tags));
        if max < r.len() {
            r.take(max)
        } else {
            r
        }
    }
}

/// Compares `an/ad` and `bn/bd` exactly, without forming the products:
/// equal integer parts reduce the question to the swapped remainders.
fn frac_lt(an: u128, ad: u128, bn: u128, bd: u128) -> (r: bool)
    requires
        ad > 0,
        bd > 0,
    ensures
        r == ((an as int) * (bd as int) < (bn as int) * (ad as int)),
    decreases ad + bd,
{
    let q1 = an / ad;
    let q2 = bn / bd;
    let r1 = an % ad;
    let r2 = bn % bd;
    proof {
        let ani = an as int;
        let adi = ad as int;
        let bni = bn as int;
        let bdi = bd as int;
        let q1i = q1 as int;
        let q2i = q2 as int;
        let r1i = r1 as int;
        let r2i = r2 as int;
        assert(ani == q1i * adi + r1i && 0 <= r1i < adi && bni == q2i * bdi + r2i && 0 <= r2i
            < bdi) by (nonlinear_arith)
            requires
                ani >= 0,
                bni >= 0,
                adi > 0,
                bdi > 0,
                q1i == ani / adi,
                r1i == ani % adi,
                q2i == bni / bdi,
                r2i == bni % bdi,
        ;
        assert((ani * bdi < bni * adi) == if q1i != q2i {
            q1i < q2i
        } else {
            r1i * bdi < r2i * adi
        }) by (nonlinear_arith)
            requires
                adi > 0,
                bdi > 0,
                0 <= r1i < adi,
                0 <= r2i < bdi,
                ani == q1i * adi + r1i,
                bni == q2i * bdi + r2i,
        ;
    }
    if q1 != q2 {
        return q1 < q2;
    }
    if r2 == 0 {
        proof {
            assert((r1 as int) * (bd as int) >= 0) by (nonlinear_arith)
                requires
                    r1 as int >= 0,
                    bd as int > 0,
            ;
            assert((r2 as int) * (ad as int) == 0) by (nonlinear_arith)
                requires
                    r2 as int == 0,
            ;
        }
        return false;
    }
    if r1 == 0 {
        proof {
            assert((r2 as int) * (ad as int) > 0) by (nonlinear_arith)
                requires
                    r2 as int > 0,
                    ad as int > 0,
            ;
            assert((r1 as int) * (bd as int) == 0) by (nonlinear_arith)
                requires
                    r1 as int == 0,
            ;
        }
        return true;
    }
    frac_lt(bd, r2, ad, r1)
}

/// Every ranked entry carries a positive denominator.
pub open spec fn pos_dens(s: Seq<SimilarTag>) -> bool {
    forall|i: int| 0 <= i < s.len() ==> #[trigger] s[i].similarity_den > 0
}

/// Inserting keeps positive denominators.
proof fn lemma_insert_desc_pos(x: SimilarTag, s: Seq<SimilarTag>)
    requires
        pos_dens(s),
        x.similarity_den > 0,
    ensures
        pos_dens(insert_desc(x, s)),
        insert_desc(x, s).len() == s.len() + 1,
    decreases s.len(),
{
    if s.len() > 0 && !score_lt(s[0], x) {
        assert(pos_dens(s.skip(1)));
        lemma_insert_desc_pos(x, s.skip(1));
    }
}

/// Inserts a match into an already-ranked vector, right behind every
/// entry scoring at least as well.
fn insert_ranked(v: &mut Vec<SimilarTag>, x: SimilarTag)
    requires
        pos_dens(old(v)@),
        x.similarity_den > 0,
    ensures
        final(v)@ == insert_desc(x, old(v)@),
        pos_dens(final(v)@),
{
    proof {
        lemma_insert_desc_pos(x, v@);
        assert(v@.skip(0) =~= v@);
        assert(v@.take(0) + insert_desc(x, v@.skip(0)) =~= insert_desc(x, v@));
    }
    let n = v.len();
    let mut j: usize = 0;
    while j < n
        invariant
            n == v@.len(),
            j <= n,
            v@ == old(v)@,
            pos_dens(v@),
            x.similarity_den > 0,
            insert_desc(x, v@) == v@.take(j as int) + insert_desc(x, v@.skip(j as int)),
        decreases n - j,
    {
        let vd = v[j].similarity_den;
        let vn = v[j].similarity_num;
        if frac_lt(vn, vd, x.similarity_num, x.similarity_den) {
            proof {
                assert(v@.skip(j as int)[0] == v@[j as int]);
                assert(seq![x] + v@.skip(j as int) =~= v@.skip(j as int).insert(0, x));
                assert(v@.take(j as int) + v@.skip(j as int).insert(0, x) =~= v@.insert(
                    j as int,
                    x,
                ));
            }
            v.insert(j, x);
            return ;
        }
        proof {
            let rest = v@.skip(j as int);
            assert(rest[0] == v@[j as int]);
            assert(!score_lt(rest[0], x));
            assert(insert_desc(x, rest) == seq![rest[0]] + insert_desc(x, rest.skip(1)));
            assert(rest.skip(1) =~= v@.skip(j + 1));
            assert(v@.take(j as int) + (seq![rest[0]] + insert_desc(x, v@.skip(j + 1))) =~= v@.take(
                j + 1,
            ) + insert_desc(x, v@.skip(j + 1)));
        }
        j = j + 1;
    }
    proof {
        assert(v@.skip(n as int) =~= Seq::<SimilarTag>::empty());
        assert(insert_desc(x, v@.skip(n as int)) == seq![x]);
        assert(v@.take(n as int) + seq![x] =~= v@.push(x));
    }
    v.push(x);
}

/// A ranking is in descending order: no entry scores strictly less than
/// a later one.
pub open spec fn sorted_desc(s: Seq<SimilarTag>) -> bool {
    forall|i: int, j: int| 0 <= i < j < s.len() ==> !score_lt(s[i], s[j])
}

/// Chaining the exact fraction order: at most `t` and strictly below
/// `u` is strictly below `u`.
proof fn lemma_frac_chain(sn: int, sd: int, tn: int, td: int, un: int, ud: int)
    requires
        sd > 0,
        td > 0,
        ud > 0,
        sn * td <= tn * sd,
        tn * ud < un * td,
    ensures
        sn * ud < un * sd,
{
    assert(sn * ud < un * sd) by (nonlinear_arith)
        requires
            sd > 0,
            td > 0,
            ud > 0,
            sn * td <= tn * sd,
            tn * ud < un * td,
    ;
}

/// The exact fraction order is asymmetric.
proof fn lemma_frac_asym(an: int, ad: int, bn: int, bd: int)
    requires
        an * bd < bn * ad,
    ensures
        !(bn * ad < an * bd),
{
}

/// Inserting into a descending ranking keeps it descending.
proof fn lemma_insert_desc_sorted(x: SimilarTag, s: Seq<SimilarTag>)
    requires
        pos_dens(s),
        x.similarity_den > 0,
        sorted_desc(s),
    ensures
        sorted_desc(insert_desc(x, s)),
    decreases s.len(),
{
    let r = insert_desc(x, s);
    if s.len() == 0 {
    } else if score_lt(s[0], x) {
        assert forall|i: int, j: int| 0 <= i < j < r.len() implies !score_lt(r[i], r[j]) by {
            if i == 0 {
                let sk = s[j - 1];
                if j > 1 {
                    assert(!score_lt(s[0], sk));
                    lemma_frac_chain(
                        sk.similarity_num as int,
                        sk.similarity_den as int,
                        s[0].similarity_num as int,
                        s[0].similarity_den as int,
                        x.similarity_num as int,
                        x.similarity_den as int,
                    );
                }
                lemma_frac_asym(
                    sk.similarity_num as int,
                    sk.similarity_den as int,
                    x.similarity_num as int,
                    x.similarity_den as int,
                );
            } else {
                assert(r[i] == s[i - 1] && r[j] == s[j - 1]);
            }
        }
    } else {
        assert(pos_dens(s.skip(1)));
        assert(sorted_desc(s.skip(1)));
        lemma_insert_desc_sorted(x, s.skip(1));
        let rt = insert_desc(x, s.skip(1));
        assert forall|i: int, j: int| 0 <= i < j < r.len() implies !score_lt(r[i], r[j]) by {
            if i == 0 {
                lemma_insert_desc_member(x, s.skip(1), j - 1);
                if rt[j - 1] == x {
                    assert(!score_lt(s[0], x));
                } else {
                    let w = choose|k: int|
                        0 <= k < s.skip(1).len() && s.skip(1)[k] == rt[j - 1];
                    assert(s[w + 1] == rt[j - 1]);
                    assert(!score_lt(s[0], s[w + 1]));
                }
            } else {
                assert(r[i] == rt[i - 1] && r[j] == rt[j - 1]);
            }
        }
    }
}

/// Sorting yields a descending ranking with the denominators intact.
proof fn lemma_sort_desc_sorted(s: Seq<SimilarTag>)
    requires
        pos_dens(s),
    ensures
        sorted_desc(sort_desc(s)),
        pos_dens(sort_desc(s)),
    decreases s.len(),
{
    if s.len() > 0 {
        assert(pos_dens(s.drop_last()));
        lemma_sort_desc_sorted(s.drop_last());
        lemma_insert_desc_sorted(s.last(), sort_desc(s.drop_last()));
        lemma_insert_desc_pos(s.last(), sort_desc(s.drop_last()));
    }
}

/// Every survivor record carries a positive denominator; stated for
/// queries and tags short enough to exist in memory, whose score
/// denominators fit their field.
proof fn lemma_survivors_pos_dens(q: Seq<char>, tags: Seq<String>)
    requires
        0 < q.len() <= usize::MAX,
        forall|i: int| 0 <= i < tags.len() ==> (#[trigger] tags[i]@).len() <= usize::MAX,
    ensures
        pos_dens(survivors(q, tags)),
    decreases tags.len(),
{
    if tags.len() > 0 {
        assert(forall|i: int|
            0 <= i < tags.drop_last().len() ==> (#[trigger] tags.drop_last()[i]@).len()
                <= usize::MAX);
        lemma_survivors_pos_dens(q, tags.drop_last());
        let rest = survivors(q, tags.drop_last());
        if above_cutoff(q, tags.last()@) {
            assert forall|i: int|
                0 <= i < survivors(q, tags).len() implies #[trigger] survivors(
                q,
                tags,
            )[i].similarity_den > 0 by {
                if i < rest.len() {
                    assert(survivors(q, tags)[i] == rest[i]);
                } else {
                    assert(tags[tags.len() - 1]@.len() <= usize::MAX);
                    assert(10 <= score_den(q, tags.last()@) < 0x100000000000000000000000000000000);
                    assert(survivors(q, tags)[i] == candidate(q, tags.last()));
                    assert(candidate(q, tags.last()).similarity_den > 0);
                }
            }
        }
    }
}

/// The law the fuzzy search obeys: what it hands back is ranked by the
/// exact similarity score, best first. Stated for queries and tags
/// short enough to exist in memory.
pub proof fn lemma_find_similar_sorted(q: Seq<char>, tags: Seq<String>, max: int)
    requires
        0 <= max,
        q.len() <= usize::MAX,
        forall|i: int| 0 <= i < tags.len() ==> (#[trigger] tags[i]@).len() <= usize::MAX,
    ensures
        sorted_desc(find_similar_spec(q, tags, max)),
{
    let r = find_similar_spec(q, tags, max);
    if q.len() == 0 {
        assert(r.len() == 0);
    } else {
        lemma_survivors_pos_dens(q, tags);
        lemma_sort_desc_sorted(survivors(q, tags));
        let full = sort_desc(survivors(q, tags));
        assert forall|i: int, j: int| 0 <= i < j < r.len() implies !score_lt(r[i], r[j]) by {
            assert(r[i] == full[i] && r[j] == full[j]);
        }
    }
}

/// Whatever insertion places, every entry was the inserted one or an
/// entry of the old ranking.
proof fn lemma_insert_desc_member(x: SimilarTag, s: Seq<SimilarTag>, k: int)
    requires
        0 <= k < insert_desc(x, s).len(),
    ensures
        insert_desc(x, s)[k] == x || s.contains(insert_desc(x, s)[k]),
    decreases s.len(),
{
    if s.len() == 0 {
    } else if score_lt(s[0], x) {
        if k > 0 {
            assert(s.contains(s[k - 1]));
        }
    } else {
        if k == 0 {
            assert(s.contains(s[0]));
        } else {
            lemma_insert_desc_member(x, s.skip(1), k - 1);
            if s.skip(1).contains(insert_desc(x, s)[k]) {
                let w = choose|j: int|
                    0 <= j < s.skip(1).len() && s.skip(1)[j] == insert_desc(x, s)[k];
                assert(s[w + 1] == insert_desc(x, s)[k]);
                assert(s.contains(s[w + 1]));
            }
        }
    }
}

/// Every ranked entry came from the survivor list.
proof fn lemma_sort_desc_member(s: Seq<SimilarTag>, k: int)
    requires
        0 <= k < sort_desc(s).len(),
    ensures
        s.contains(sort_desc(s)[k]),
    decreases s.len(),
{
    if s.len() > 0 {
        lemma_insert_desc_member(s.last(), sort_desc(s.drop_last()), k);
        if sort_desc(s)[k] == s.last() {
            assert(s[s.len() - 1] == s.last());
        } else {
            let w = choose|j: int|
                0 <= j < sort_desc(s.drop_last()).len() && sort_desc(s.drop_last())[j]
                    == sort_desc(s)[k];
            lemma_sort_desc_member(s.drop_last(), w);
            let v = choose|j: int|
                0 <= j < s.drop_last().len() && s.drop_last()[j] == sort_desc(s)[k];
            assert(s[v] == sort_desc(s)[k]);
        }
    }
}

/// Every survivor is the match record of some dictionary member.
proof fn lemma_survivors_member(q: Seq<char>, tags: Seq<String>, k: int)
    requires
        0 <= k < survivors(q, tags).len(),
    ensures
        exists|i: int|
            0 <= i < tags.len() && survivors(q, tags)[k] == candidate(q, #[trigger] tags[i]),
    decreases tags.len(),
{
    if tags.len() > 0 {
        let rest = survivors(q, tags.drop_last());
        if k < rest.len() {
            lemma_survivors_member(q, tags.drop_last(), k);
            let w = choose|i: int|
                0 <= i < tags.drop_last().len() && rest[k] == candidate(
                    q,
                    #[trigger] tags.drop_last()[i],
                );
            assert(survivors(q, tags)[k] == candidate(q, tags[w]));
        } else {
            assert(survivors(q, tags)[k] == candidate(q, tags[tags.len() - 1]));
        }
    }
}

/// Every match the fuzzy search hands back carries the exact characters
/// of some dictionary member.
pub proof fn lemma_find_similar_member(q: Seq<char>, tags: Seq<String>, max: int, k: int)
    requires
        0 <= max,
        0 <= k < find_similar_spec(q, tags, max).len(),
    ensures
        dict_has(tags, find_similar_spec(q, tags, max)[k].tag@),
    decreases tags.len(),
{
    if q.len() == 0 {
        assert(find_similar_spec(q, tags, max).len() == 0);
    } else {
        let full = sort_desc(survivors(q, tags));
        assert(k < full.len());
        assert(find_similar_spec(q, tags, max)[k] == full[k]);
        lemma_sort_desc_member(survivors(q, tags), k);
        let w = choose|j: int|
            0 <= j < survivors(q, tags).len() && survivors(q, tags)[j] == full[k];
        lemma_survivors_member(q, tags, w);
        let i = choose|i: int|
            0 <= i < tags.len() && survivors(q, tags)[w] == candidate(q, #[trigger] tags[i]);
        assert(tags[i]@ == full[k].tag@);
    }
}

/// A member of a dictionary prefix is a member of the grown dictionary.
pub proof fn lemma_dict_has_grows(old_tags: Seq<String>, new_tags: Seq<String>, t: Seq<char>)
    requires
        dict_has(old_tags, t),
        old_tags.len() <= new_tags.len(),
        new_tags.take(old_tags.len() as int) == old_tags,
    ensures
        dict_has(new_tags, t),
{
    let w = choose|i: int| 0 <= i < old_tags.len() && #[trigger] old_tags[i]@ == t;
    assert(new_tags.take(old_tags.len() as int)[w] == new_tags[w]);
    assert(new_tags[w]@ == t);
}

/// A deduplicated set of validated kebab-case tags, kept in the order
/// they were added.
#[derive(Debug)]
pub struct TagDictionary {
    tags: Vec<String>,
}

impl View for TagDictionary {
    type V = Seq<String>;

    closed spec fn view(&self) -> Seq<String> {
        self.tags@
    }
}

/// True when some member of the list has exactly the given characters.
pub open spec fn dict_has(s: Seq<String>, t: Seq<char>) -> bool {
    exists|i: int| 0 <= i < s.len() && #[trigger] s[i]@ == t
}

/// The dictionary invariant over a member list: every member is a
/// valid tag, and no two members are equal.
pub open spec fn tags_wf(s: Seq<String>) -> bool {
    &&& forall|i: int| 0 <= i < s.len() ==> valid_kebab(#[trigger] s[i]@)
    &&& forall|i: int, j: int| 0 <= i < j < s.len() ==> s[i]@ != s[j]@
}

/// The dictionary invariant: its member list is well-formed.
pub open spec fn dict_wf(d: &TagDictionary) -> bool {
    tags_wf(d@)
}

/// Decides whether two strings hold the same characters.
pub fn str_eq(a: &str, b: &str) -> (r: bool)
    ensures
        r == (a@ == b@),
{
    let av = chars_of(a);
    let bv = chars_of(b);
    chars_eq(av.as_slice(), bv.as_slice())
}

impl TagDictionary {
    /// An empty dictionary.
    pub fn new() -> (r: Self)
        ensures
            r@.len() == 0,
            dict_wf(&r),
    {
        TagDictionary { tags: Vec::new() }
    }

    /// True when the exact tag is a member.
    pub fn contains(&self, tag: &str) -> (r: bool)
        ensures
            r == dict_has(self@, tag@),
    {
        let n = self.tags.len();
        let mut i: usize = 0;
        while i < n
            invariant
                n == self@.len(),
                forall|j: int| 0 <= j < i ==> #[trigger] self@[j]@ != tag@,
            decreases n - i,
        {
            if str_eq(self.tags[i].as_str(), tag) {
                return true;
            }
            i = i + 1;
        }
        false
    }

    /// Validates a tag and inserts it; a duplicate leaves the
    /// dictionary as it stands, an invalid tag is rejected.
    pub fn add_tag(&mut self, tag: String) -> (r: Result<(), CleanboxError>)
        requires
            dict_wf(old(self)),
        ensures
            dict_wf(final(self)),
            r is Ok <==> valid_kebab(tag@),
            r is Err ==> final(self)@ == old(self)@,
            r matches Err(e) ==> e is InvalidUserInput,
            r is Ok ==> if dict_has(old(self)@, tag@) {
                final(self)@ == old(self)@
            } else {
                final(self)@ == old(self)@.push(tag)
            },
    {
        if let Err(e) = validate_tag_format(tag.as_str()) {
            return Err(e);
        }
        if !self.contains(tag.as_str()) {
            proof {
                assert(forall|i: int, j: int|
                    0 <= i < j < old(self)@.push(tag).len() ==> old(self)@.push(tag)[i]@ != old(
                        self,
                    )@.push(tag)[j]@);
            }
            self.tags.push(tag);
        }
        Ok(())
    }

    /// True when the dictionary has no members.
    pub fn is_empty(&self) -> (r: bool)
        ensures
            r == (self@.len() == 0),
    {
        self.tags.len() == 0
    }

    /// How many tags the dictionary holds.
    pub fn len(&self) -> (r: usize)
        ensures
            r == self@.len(),
    {
        self.tags.len()
    }

    /// Ranks every member against the query as the similarity scoring
    /// says, dropping scores of three tenths or below and cutting the
    /// ranking to `max_results` entries. An empty query matches
    /// nothing.
    pub fn find_similar(&self, query: &str, max_results: usize) -> (r: Vec<SimilarTag>)
        ensures
            r@ == find_similar_spec(query@, self@, max_results as int),
    {
        let q = chars_of(query);
        if q.len() == 0 {
            return Vec::new();
        }
        let n = self.tags.len();
        let mut ranked: Vec<SimilarTag> = Vec::new();
        let mut i: usize = 0;
        while i < n
            invariant
                n == self@.len(),
                i <= n,
                q@ == query@,
                q@.len() > 0,
                ranked@ == sort_desc(survivors(q@, self@.take(i as int))),
                pos_dens(ranked@),
            decreases n - i,
        {
            let t = chars_of(self.tags[i].as_str());
            let d = levenshtein(&q, &t);
            proof {
                lemma_lev_le_max(q@, t@);
            }
            let maxlen: u128 = if q.len() >= t.len() {
                q.len() as u128
            } else {
                t.len() as u128
            };
            proof {
                assert(maxlen as int == spec_max(q@.len() as int, t@.len() as int));
                assert(d as int == lev(q@, t@));
                assert(d as u128 <= maxlen);
            }
            let mut bonus: u128 = 0;
            if starts_with(&t, &q) {
                bonus = bonus + 5;
            }
            let mut hyph_q: Vec<char> = Vec::new();
            hyph_q.push('-');
            push_all(&mut hyph_q, &q);
            let word = match find_seq(&t, &hyph_q, 0) {
                Some(_) => true,
                None => false,
            };
            proof {
                assert(hyph_q@ =~= seq!['-'] + q@);
            }
            if word {
                bonus = bonus + 2;
            }
            let early = match find_seq(&t, &q, 0) {
                Some(p) => p <= 2,
                None => false,
            };
            if early {
                bonus = bonus + 1;
            }
            let den: u128 = 10 * maxlen;
            proof {
                assert((bonus as int) * (maxlen as int) <= 8 * (maxlen as int))
                    by (nonlinear_arith)
                    requires
                        0 <= bonus as int <= 8,
                        maxlen as int >= 0,
                ;
                assert((bonus as int) * (maxlen as int) >= 0) by (nonlinear_arith)
                    requires
                        0 <= bonus as int,
                        maxlen as int >= 0,
                ;
            }
            let raw: u128 = 10 * (maxlen - (d as u128)) + bonus * maxlen;
            let num: u128 = if raw > den {
                den
            } else {
                raw
            };
            proof {
                assert(bonus as int == bonus_tenths(q@, t@));
                assert(num as int == score_num(q@, t@));
                assert(den as int == score_den(q@, t@));
                assert(self@.take(i + 1).drop_last() =~= self@.take(i as int));
                assert(self@.take(i + 1).last() == self@[i as int]);
            }
            if num > 3 * maxlen {
                let entry = SimilarTag {
                    tag: self.tags[i].clone(),
                    distance: d,
                    similarity_num: num,
                    similarity_den: den,
                };
                proof {
                    assert(entry == candidate(q@, self@[i as int]));
                    assert(survivors(q@, self@.take(i + 1)) == survivors(
                        q@,
                        self@.take(i as int),
                    ).push(entry));
                }
                insert_ranked(&mut ranked, entry);
                proof {
                    assert(survivors(q@, self@.take(i + 1)).drop_last() =~= survivors(
                        q@,
                        self@.take(i as int),
                    ));
                }
            } else {
                proof {
                    assert(survivors(q@, self@.take(i + 1)) == survivors(
                        q@,
                        self@.take(i as int),
                    ));
                }
            }
            i = i + 1;
        }
        proof {
            assert(self@.take(n as int) =~= self@);
        }
        if max_results < ranked.len() {
            let mut cut: Vec<SimilarTag> = Vec::new();
            let mut k: usize = 0;
            while k < max_results
                invariant
                    max_results < ranked@.len(),
                    k <= max_results,
                    cut@ == ranked@.take(k as int),
                decreases max_results - k,
            {
                let item = SimilarTag {
                    tag: ranked[k].tag.clone(),
                    distance: ranked[k].distance,
                    similarity_num: ranked[k].similarity_num,
                    similarity_den: ranked[k].similarity_den,
                };
                proof {
                    assert(item == ranked@[k as int]);
                    assert(ranked@.take(k as int).push(ranked@[k as int]) =~= ranked@.take(
                        k + 1,
                    ));
                }
                cut.push(item);
                k = k + 1;
            }
            cut
        } else {
            ranked
        }
    }
}

/// Strict lexicographic order on character sequences, by code point.
pub open spec fn lex_lt(a: Seq<char>, b: Seq<char>) -> bool
    decreases a.len(),
{
    if b.len() == 0 {
        false
    } else if a.len() == 0 {
        true
    } else if a[0] != b[0] {
        a[0] < b[0]
    } else {
        lex_lt(a.skip(1), b.skip(1))
    }
}

/// Decides the lexicographic order on two character vectors.
pub fn chars_lt(a: &Vec<char>, b: &Vec<char>) -> (r: bool)
    ensures
        r == lex_lt(a@, b@),
{
    let an = a.len();
    let bn = b.len();
    proof {
        assert(a@.skip(0) =~= a@);
        assert(b@.skip(0) =~= b@);
    }
    let mut i: usize = 0;
    while i < an && i < bn
        invariant
            an == a@.len(),
            bn == b@.len(),
            i <= an,
            i <= bn,
            lex_lt(a@, b@) == lex_lt(a@.skip(i as int), b@.skip(i as int)),
        decreases an - i,
    {
        proof {
            assert(a@.skip(i as int)[0] == a@[i as int]);
            assert(b@.skip(i as int)[0] == b@[i as int]);
            assert(a@.skip(i as int).skip(1) =~= a@.skip(i + 1));
            assert(b@.skip(i as int).skip(1) =~= b@.skip(i + 1));
        }
        if a[i] != b[i] {
            return a[i] < b[i];
        }
        i = i + 1;
    }
    proof {
        if i >= an {
            assert(a@.skip(i as int).len() == 0);
        } else {
            assert(b@.skip(i as int).len() == 0);
        }
    }
    an < bn
}

/// Inserts a tag behind every member that does not come after it:
/// ascending, with equal members keeping their order.
pub open spec fn insert_lex(x: String, s: Seq<String>) -> Seq<String>
    decreases s.len(),
{
    if s.len() == 0 {
        seq![x]
    } else if lex_lt(x@, s[0]@) {
        seq![x] + s
    } else {
        seq![s[0]] + insert_lex(x, s.skip(1))
    }
}

/// Stable insertion sort into alphabetical order.
pub open spec fn sort_lex(s: Seq<String>) -> Seq<String>
    decreases s.len(),
{
    if s.len() == 0 {
        s
    } else {
        insert_lex(s.last(), sort_lex(s.drop_last()))
    }
}

/// Inserts a tag into an already-sorted vector, behind every member
/// that does not come after it.
fn insert_sorted(v: &mut Vec<String>, x: String)
    ensures
        final(v)@ == insert_lex(x, old(v)@),
{
    proof {
        assert(v@.skip(0) =~= v@);
        assert(v@.take(0) + insert_lex(x, v@.skip(0)) =~= insert_lex(x, v@));
    }
    let n = v.len();
    let xc = chars_of(x.as_str());
    let mut j: usize = 0;
    while j < n
        invariant
            n == v@.len(),
            j <= n,
            v@ == old(v)@,
            xc@ == x@,
            insert_lex(x, v@) == v@.take(j as int) + insert_lex(x, v@.skip(j as int)),
        decreases n - j,
    {
        let vc = chars_of(v[j].as_str());
        if chars_lt(&xc, &vc) {
            proof {
                assert(v@.skip(j as int)[0] == v@[j as int]);
                assert(seq![x] + v@.skip(j as int) =~= v@.skip(j as int).insert(0, x));
                assert(v@.take(j as int) + v@.skip(j as int).insert(0, x) =~= v@.insert(
                    j as int,
                    x,
                ));
            }
            v.insert(j, x);
            return ;
        }
        proof {
            let rest = v@.skip(j as int);
            assert(rest[0] == v@[j as int]);
            assert(insert_lex(x, rest) == seq![rest[0]] + insert_lex(x, rest.skip(1)));
            assert(rest.skip(1) =~= v@.skip(j + 1));
            assert(v@.take(j as int) + (seq![rest[0]] + insert_lex(x, v@.skip(j + 1))) =~= v@.take(
                j + 1,
            ) + insert_lex(x, v@.skip(j + 1)));
        }
        j = j + 1;
    }
    proof {
        assert(v@.skip(n as int) =~= Seq::<String>::empty());
        assert(insert_lex(x, v@.skip(n as int)) == seq![x]);
        assert(v@.take(n as int) + seq![x] =~= v@.push(x));
    }
    v.push(x);
}

/// The members joined with newlines, in the order given.
pub open spec fn join_newlines(parts: Seq<String>) -> Seq<char>
    decreases parts.len(),
{
    if parts.len() == 0 {
        Seq::empty()
    } else if parts.len() == 1 {
        parts[0]@
    } else {
        join_newlines(parts.drop_last()) + seq!['\n'] + parts.last()@
    }
}

/// The persisted form of a dictionary: its members sorted
/// alphabetically, one per line, with a trailing newline.
pub open spec fn tags_file_text(tags: Seq<String>) -> Seq<char> {
    join_newlines(sort_lex(tags)) + seq!['\n']
}

/// ASCII whitespace, as line trimming counts it.
pub open spec fn is_space_char(c: char) -> bool {
    c == ' ' || c == '\t' || c == '\r' || c == '\n'
}

/// The sequence with leading whitespace removed.
pub open spec fn trim_start_spec(s: Seq<char>) -> Seq<char>
    decreases s.len(),
{
    if s.len() > 0 && is_space_char(s[0]) {
        trim_start_spec(s.skip(1))
    } else {
        s
    }
}

/// The sequence with trailing whitespace removed.
pub open spec fn trim_end_spec(s: Seq<char>) -> Seq<char>
    decreases s.len(),
{
    if s.len() > 0 && is_space_char(s.last()) {
        trim_end_spec(s.drop_last())
    } else {
        s
    }
}

/// The sequence with whitespace removed from both ends.
pub open spec fn trim_spec(s: Seq<char>) -> Seq<char> {
    trim_end_spec(trim_start_spec(s))
}

/// Dropping leading whitespace is skipping to the first non-space.
pub proof fn lemma_trim_start_at(s: Seq<char>, a: int)
    requires
        0 <= a <= s.len(),
        forall|j: int| 0 <= j < a ==> is_space_char(s[j]),
        a < s.len() ==> !is_space_char(s[a]),
    ensures
        trim_start_spec(s) == s.skip(a),
    decreases a,
{
    if a == 0 {
        assert(s.skip(0) =~= s);
    } else {
        lemma_trim_start_at(s.skip(1), a - 1);
        assert(s.skip(1).skip(a - 1) =~= s.skip(a));
    }
}

/// Dropping trailing whitespace is cutting after the last non-space.
pub proof fn lemma_trim_end_at(s: Seq<char>, b: int)
    requires
        0 <= b <= s.len(),
        forall|j: int| b <= j < s.len() ==> is_space_char(s[j]),
        b > 0 ==> !is_space_char(s[b - 1]),
    ensures
        trim_end_spec(s) == s.take(b),
    decreases s.len(),
{
    if b < s.len() {
        lemma_trim_end_at(s.drop_last(), b);
        assert(s.drop_last().take(b) =~= s.take(b));
    } else {
        assert(s.take(b) =~= s);
    }
}

/// Removes ASCII whitespace from both ends of `v`.
pub fn trim_chars(v: &Vec<char>) -> (r: Vec<char>)
    ensures
        r@ == trim_spec(v@),
{
    let n = v.len();
    let mut a: usize = 0;
    while a < n && (v[a] == ' ' || v[a] == '\t' || v[a] == '\r' || v[a] == '\n')
        invariant
            n == v@.len(),
            a <= n,
            forall|j: int| 0 <= j < a ==> is_space_char(v@[j]),
        decreases n - a,
    {
        a = a + 1;
    }
    proof {
        lemma_trim_start_at(v@, a as int);
    }
    let mut b: usize = n;
    while b > a && (v[b - 1] == ' ' || v[b - 1] == '\t' || v[b - 1] == '\r' || v[b - 1] == '\n')
        invariant
            n == v@.len(),
            a <= b <= n,
            forall|j: int| b <= j < n ==> is_space_char(v@[j]),
        decreases b,
    {
        b = b - 1;
    }
    proof {
        let t = trim_start_spec(v@);
        assert(t == v@.skip(a as int));
        assert(t.len() == n - a);
        assert(forall|j: int| 0 <= j < t.len() ==> t[j] == v@[a + j]);
        lemma_trim_end_at(t, b - a);
        assert(t.take(b - a) =~= v@.subrange(a as int, b as int));
    }
    subvec(v, a, b)
}

impl TagDictionary {
    /// The members in alphabetical order.
    pub fn all_tags(&self) -> (r: Vec<String>)
        ensures
            r@ == sort_lex(self@),
    {
        let n = self.tags.len();
        let mut sorted: Vec<String> = Vec::new();
        let mut i: usize = 0;
        while i < n
            invariant
                n == self@.len(),
                i <= n,
                sorted@ == sort_lex(self@.take(i as int)),
            decreases n - i,
        {
            insert_sorted(&mut sorted, self.tags[i].clone());
            proof {
                assert(self@.take(i + 1).drop_last() =~= self@.take(i as int));
                assert(self@.take(i + 1).last() == self@[i as int]);
            }
            i = i + 1;
        }
        proof {
            assert(self@.take(n as int) =~= self@);
        }
        sorted
    }

    /// The persisted form of the dictionary: its members sorted
    /// alphabetically, one per line, with a trailing newline.
    pub fn to_text(&self) -> (r: String)
        ensures
            r@ == tags_file_text(self@),
    {
        let sorted = self.all_tags();
        let n = sorted.len();
        let mut out: Vec<char> = Vec::new();
        let mut i: usize = 0;
        while i < n
            invariant
                n == sorted@.len(),
                i <= n,
                out@ == join_newlines(sorted@.take(i as int)),
            decreases n - i,
        {
            if i > 0 {
                out.push('\n');
            }
            push_all(&mut out, &chars_of(sorted[i].as_str()));
            proof {
                assert(sorted@.take(i + 1).drop_last() =~= sorted@.take(i as int));
                assert(sorted@.take(i + 1).last() == sorted@[i as int]);
                if i == 0 {
                    assert(out@ =~= join_newlines(sorted@.take(1)));
                } else {
                    assert(out@ =~= join_newlines(sorted@.take(i as int)) + seq!['\n']
                        + sorted@[i as int]@);
                }
            }
            i = i + 1;
        }
        out.push('\n');
        proof {
            assert(sorted@.take(n as int) =~= sorted@);
            assert(out@ =~= tags_file_text(self@));
        }
        string_from_chars(&out)
    }

    /// Builds a dictionary from persisted text: one tag per line, blank
    /// lines skipped, every kept line validated, duplicates collapsed.
    pub fn from_text(content: &str) -> (r: Result<TagDictionary, CleanboxError>)
        ensures
            r matches Ok(d) ==> dict_wf(&d),
            r matches Err(e) ==> e is InvalidUserInput,
            r is Ok <==> lines_ok(content@),
            r matches Ok(d) ==> text_tags_correspond(content@, d@),
    {
        let chars = chars_of(content);
        let lines = split_on(&chars, '\n');
        let n = lines.len();
        let mut dict = TagDictionary::new();
        let mut k: usize = 0;
        while k < n
            invariant
                n == lines@.len(),
                k <= n,
                lines.deep_view() == split_char(content@, '\n'),
                dict_wf(&dict),
                forall|j: int|
                    0 <= j < k ==> {
                        let t = trim_spec(#[trigger] split_char(content@, '\n')[j]);
                        t.len() == 0 || valid_kebab(t)
                    },
                forall|j: int|
                    0 <= j < k ==> {
                        let t = trim_spec(#[trigger] split_char(content@, '\n')[j]);
                        t.len() == 0 || dict_has(dict@, t)
                    },
                forall|i: int|
                    0 <= i < dict@.len() ==> from_line(content@, #[trigger] dict@[i]@, k as int),
            decreases n - k,
        {
            proof {
                assert(lines@[k as int]@ == split_char(content@, '\n')[k as int]);
            }
            let tag = trim_chars(&lines[k]);
            if tag.len() > 0 {
                let tag_string = string_from_chars(&tag);
                let ghost old_dict = dict@;
                match dict.add_tag(tag_string) {
                    Ok(()) => {
                        proof {
                            assert(forall|ii: int|
                                0 <= ii < old_dict.len() ==> #[trigger] dict@[ii]@
                                    == old_dict[ii]@);
                            assert forall|j: int| 0 <= j < k + 1 implies {
                                let t = trim_spec(#[trigger] split_char(content@, '\n')[j]);
                                t.len() == 0 || dict_has(dict@, t)
                            } by {
                                let t = trim_spec(split_char(content@, '\n')[j]);
                                if j < k {
                                    if t.len() != 0 {
                                        let w = choose|i: int|
                                            0 <= i < old_dict.len() && #[trigger] old_dict[i]@
                                                == t;
                                        assert(dict@[w]@ == t);
                                    }
                                } else {
                                    if dict_has(old_dict, tag@) {
                                        let w = choose|ii: int|
                                            0 <= ii < old_dict.len()
                                                && #[trigger] old_dict[ii]@ == tag@;
                                        assert(dict@[w]@ == t);
                                    } else {
                                        assert(dict@[dict@.len() - 1]@ == t);
                                    }
                                }
                            }
                            assert forall|i: int| 0 <= i < dict@.len() implies from_line(
                                content@,
                                #[trigger] dict@[i]@,
                                k + 1,
                            ) by {
                                if i < old_dict.len() {
                                    lemma_from_line_widen(content@, dict@[i]@, k as int, k + 1);
                                } else {
                                    assert(trim_spec(split_char(content@, '\n')[k as int])
                                        == dict@[i]@);
                                    assert(from_line(content@, dict@[i]@, k + 1));
                                }
                            }
                        }
                    },
                    Err(e) => {
                        proof {
                            assert(!valid_kebab(trim_spec(
                                split_char(content@, '\n')[k as int],
                            )));
                            assert(!lines_ok(content@));
                        }
                        return Err(e);
                    },
                }
            }
            k = k + 1;
        }
        proof {
            assert(lines.deep_view().len() == lines@.len());
            assert(split_char(content@, '\n').len() == n as int);
            assert(lines_ok(content@));
            assert(text_tags_correspond(content@, dict@));
        }
        Ok(dict)
    }

    /// Loads the dictionary from its file through the filesystem
    /// capability; an unreadable file is reported as corrupted, a line
    /// failing validation as invalid input.
    pub fn load_from_file<F: FileManager>(file_manager: &F, path: &str) -> (r: Result<
        TagDictionary,
        CleanboxError,
    >)
        ensures
            r matches Ok(d) ==> dict_wf(&d),
            r matches Err(e) ==> e is TagDictionaryCorrupted || e is InvalidUserInput,
    {
        let content = match file_manager.read_text_file(path) {
            Ok(c) => c,
            Err(_) => {
                return Err(
                    CleanboxError::TagDictionaryCorrupted(
                        "Cannot read tags file at ".to_owned().concat(path),
                    ),
                );
            },
        };
        TagDictionary::from_text(content.as_str())
    }

    /// Writes the persisted form through the filesystem capability; a
    /// failed write is reported as corrupted.
    pub fn save_to_file<F: FileManager>(&self, file_manager: &F, path: &str) -> (r: Result<
        (),
        CleanboxError,
    >)
        ensures
            r matches Err(e) ==> e is TagDictionaryCorrupted,
    {
        let content = self.to_text();
        match file_manager.write_text_file(path, content.as_str()) {
            Ok(()) => Ok(()),
            Err(_) => Err(
                CleanboxError::TagDictionaryCorrupted(
                    "Cannot write tags file at ".to_owned().concat(path),
                ),
            ),
        }
    }
}

/// True when every line of persisted dictionary text is blank after
/// trimming or a valid tag.
pub open spec fn lines_ok(content: Seq<char>) -> bool {
    forall|k: int|
        0 <= k < split_char(content, '\n').len() ==> {
            let t = trim_spec(#[trigger] split_char(content, '\n')[k]);
            t.len() == 0 || valid_kebab(t)
        }
}

/// True when `t` is the trimmed form of one of the first `upto` lines
/// of persisted dictionary text.
pub open spec fn from_line(content: Seq<char>, t: Seq<char>, upto: int) -> bool {
    exists|k: int| 0 <= k < upto && trim_spec(#[trigger] split_char(content, '\n')[k]) == t
}

/// A line witness below one bound is a witness below any larger bound.
pub proof fn lemma_from_line_widen(content: Seq<char>, t: Seq<char>, u1: int, u2: int)
    requires
        from_line(content, t, u1),
        u1 <= u2,
    ensures
        from_line(content, t, u2),
{
    let w = choose|k: int|
        0 <= k < u1 && trim_spec(#[trigger] split_char(content, '\n')[k]) == t;
    assert(0 <= w < u2 && trim_spec(split_char(content, '\n')[w]) == t);
}

/// True when a member list holds exactly the trimmed non-blank lines of
/// persisted dictionary text: every such line is a member, and every
/// member came from such a line.
pub open spec fn text_tags_correspond(content: Seq<char>, tags: Seq<String>) -> bool {
    &&& forall|k: int|
        0 <= k < split_char(content, '\n').len() ==> {
            let t = trim_spec(#[trigger] split_char(content, '\n')[k]);
            t.len() == 0 || dict_has(tags, t)
        }
    &&& forall|i: int|
        0 <= i < tags.len() ==> from_line(content, #[trigger] tags[i]@, split_char(
            content,
            '\n',
        ).len() as int)
}

/// Validation and suggestion capabilities a dictionary offers callers
/// that only need those two.
pub trait TagValidator {
    /// Checks a batch of tags against the format rules.
    fn validate_tags(&self, tags: &[String]) -> Result<(), CleanboxError>;

    /// Suggests similar tags for a query.
    fn suggest_similar(&self, tag: &str) -> Vec<SimilarTag>;
}

impl TagValidator for TagDictionary {
    /// Accepts exactly batches whose every member is a valid tag.
    fn validate_tags(&self, tags: &[String]) -> (r: Result<(), CleanboxError>)
        ensures
            r is Ok <==> forall|i: int| 0 <= i < tags@.len() ==> valid_kebab(#[trigger] tags@[i]@),
            r matches Err(e) ==> e is InvalidUserInput,
    {
        let n = tags.len();
        let mut i: usize = 0;
        while i < n
            invariant
                n == tags@.len(),
                forall|j: int| 0 <= j < i ==> valid_kebab(#[trigger] tags@[j]@),
            decreases n - i,
        {
            if let Err(e) = validate_tag_format(tags[i].as_str()) {
                return Err(e);
            }
            i = i + 1;
        }
        Ok(())
    }

    /// The top five fuzzy matches for the query.
    fn suggest_similar(&self, tag: &str) -> (r: Vec<SimilarTag>)
        ensures
            r@ == find_similar_spec(tag@, self@, 5),
    {
        self.find_similar(tag, 5)
    }
}

/// What resolving one typed tag yields: an exact dictionary member, a
/// shortlist of similar members, or no match at all; the latter two say
/// whether the typed text could become a new tag.
#[derive(Debug)]
pub enum TagResolution {
    ExactMatch(String),
    SimilarFound { input: String, similar: Vec<SimilarTag>, can_create: bool },
    NoMatch { input: String, can_create: bool },
}

/// The decision core of interactive tag entry: a dictionary plus the
/// rule turning one typed tag into a resolution.
#[derive(Debug)]
pub struct TagResolutionFlow {
    dictionary: TagDictionary,
}

impl View for TagResolutionFlow {
    type V = Seq<String>;

    closed spec fn view(&self) -> Seq<String> {
        self.dictionary@
    }
}

/// The flow invariant: its dictionary is well-formed.
pub open spec fn flow_wf(f: &TagResolutionFlow) -> bool {
    tags_wf(f@)
}

impl TagResolutionFlow {
    /// A flow around the given dictionary.
    pub fn new(dictionary: TagDictionary) -> (r: Self)
        ensures
            r@ == dictionary@,
            dict_wf(&dictionary) ==> flow_wf(&r),
    {
        TagResolutionFlow { dictionary }
    }

    /// Resolves one typed tag: an exact member matches as it stands;
    /// otherwise the top three fuzzy matches are offered when there are
    /// any; otherwise there is no match. The latter two report whether
    /// the typed text is itself a valid tag.
    pub fn resolve_tag(&self, input_tag: &str) -> (r: TagResolution)
        ensures
            match r {
                TagResolution::ExactMatch(t) => t@ == input_tag@ && dict_has(self@, input_tag@),
                TagResolution::SimilarFound { input, similar, can_create } => input@ == input_tag@
                    && !dict_has(self@, input_tag@) && similar@ == find_similar_spec(
                    input_tag@,
                    self@,
                    3,
                ) && similar@.len() > 0 && can_create == valid_kebab(input_tag@),
                TagResolution::NoMatch { input, can_create } => input@ == input_tag@ && !dict_has(
                    self@,
                    input_tag@,
                ) && find_similar_spec(input_tag@, self@, 3).len() == 0 && can_create
                    == valid_kebab(input_tag@),
            },
    {
        if self.dictionary.contains(input_tag) {
            return TagResolution::ExactMatch(input_tag.to_owned());
        }
        let similar = self.dictionary.find_similar(input_tag, 3);
        let can_create = validate_tag_format(input_tag).is_ok();
        if similar.len() == 0 {
            TagResolution::NoMatch { input: input_tag.to_owned(), can_create }
        } else {
            TagResolution::SimilarFound { input: input_tag.to_owned(), similar, can_create }
        }
    }

    /// Validates and inserts a newly created tag.
    pub fn add_new_tag(&mut self, tag: &str) -> (r: Result<(), CleanboxError>)
        requires
            flow_wf(old(self)),
        ensures
            flow_wf(final(self)),
            r is Ok <==> valid_kebab(tag@),
            r is Err ==> final(self)@ == old(self)@,
            r matches Err(e) ==> e is InvalidUserInput,
            r is Ok ==> if dict_has(old(self)@, tag@) {
                final(self)@ == old(self)@
            } else {
                final(self)@.len() == old(self)@.len() + 1 && final(self)@.take(
                    old(self)@.len() as int,
                ) == old(self)@ && final(self)@.last()@ == tag@
            },
    {
        let owned = tag.to_owned();
        let r = self.dictionary.add_tag(owned);
        proof {
            if r is Ok && !dict_has(old(self)@, tag@) {
                assert(self@.take(old(self)@.len() as int) =~= old(self)@);
            }
        }
        r
    }

    /// A read-only view of the dictionary.
    pub fn dictionary(&self) -> (r: &TagDictionary)
        ensures
            r@ == self@,
    {
        &self.dictionary
    }
}

} // verus!
