//! User-labeled documents: the date/description/tags record a user
//! supplies, its validation rules, the filename stem derived from it,
//! and date suggestions read out of file names.

use vstd::prelude::*;
use vstd::string::*;
use crate::error::CleanboxError;
use crate::filesystem::FileManager;
use crate::pathstr::file_name_spec;
use crate::text::{
    all_digits, chars_of, digits_val, find_non_kebab_char, has_double_hyphen, is_digit,
    parse_digits, push_all, string_from_chars, subvec, valid_kebab,
};

verus! {

/// A date of the form `YYYY-MM-DD` with the year in 1900 to 2100, the
/// month in 01 to 12 and the day in 01 to 31. No calendar check of days
/// per month is made.
pub open spec fn valid_date(s: Seq<char>) -> bool {
    &&& s.len() == 10
    &&& s[4] == '-'
    &&& s[7] == '-'
    &&& all_digits(s.subrange(0, 4))
    &&& all_digits(s.subrange(5, 7))
    &&& all_digits(s.subrange(8, 10))
    &&& 1900 <= digits_val(s.subrange(0, 4)) <= 2100
    &&& 1 <= digits_val(s.subrange(5, 7)) <= 12
    &&& 1 <= digits_val(s.subrange(8, 10)) <= 31
}

/// The comma-joined rendering of a list of words.
pub open spec fn join_comma(parts: Seq<Seq<char>>) -> Seq<char>
    decreases parts.len(),
{
    if parts.len() == 0 {
        Seq::empty()
    } else if parts.len() == 1 {
        parts[0]
    } else {
        join_comma(parts.drop_last()) + seq![','] + parts.last()
    }
}

/// What a user supplies for one document: a date, a kebab-case
/// description, and at least one kebab-case tag.
#[derive(Debug, Clone, PartialEq)]
pub struct DocumentInput {
    pub date: String,
    pub description: String,
    pub tags: Vec<String>,
}

/// True when every part of the input passes validation.
pub open spec fn valid_document_input(d: &DocumentInput) -> bool {
    &&& valid_date(d.date@)
    &&& valid_kebab(d.description@)
    &&& d.tags@.len() > 0
    &&& forall|i: int| 0 <= i < d.tags@.len() ==> valid_kebab(d.tags@[i]@)
}

/// The filename stem an input turns into:
/// `date_description@@tag1,tag2,...`.
pub open spec fn filename_stem_spec(d: &DocumentInput) -> Seq<char> {
    d.date@ + seq!['_'] + d.description@ + seq!['@', '@'] + join_comma(d.tags.deep_view())
}

/// Where in the kebab rules a word fails: `0` is a pass, the other
/// codes pick the error message.
pub(crate) fn kebab_flaw(v: &Vec<char>) -> (r: u8)
    ensures
        (r == 0) == valid_kebab(v@),
{
    if v.len() == 0 {
        return 1;
    }
    if let Some(_) = find_non_kebab_char(v) {
        return 2;
    }
    if v[0] == '-' || v[v.len() - 1] == '-' {
        return 3;
    }
    if has_double_hyphen(v) {
        return 4;
    }
    0
}

/// Decides whether every character of `v[from..to]` is a digit.
fn digits_in_range(v: &Vec<char>, from: usize, to: usize) -> (r: bool)
    requires
        from <= to <= v@.len(),
    ensures
        r == all_digits(v@.subrange(from as int, to as int)),
{
    let mut i: usize = from;
    while i < to
        invariant
            from <= i <= to <= v@.len(),
            forall|j: int| from <= j < i ==> is_digit(v@[j]),
        decreases to - i,
    {
        let c = v[i];
        if !('0' <= c && c <= '9') {
            proof {
                assert(v@.subrange(from as int, to as int)[i - from] == v@[i as int]);
            }
            return false;
        }
        i = i + 1;
    }
    proof {
        assert(forall|j: int|
            0 <= j < to - from ==> #[trigger] v@.subrange(from as int, to as int)[j] == v@[from
                + j]);
    }
    true
}

impl DocumentInput {
    /// Bundles the three fields; nothing is validated here.
    pub fn new(date: String, description: String, tags: Vec<String>) -> (r: Self)
        ensures
            r.date == date,
            r.description == description,
            r.tags == tags,
    {
        DocumentInput { date, description, tags }
    }

    /// Validates date, description and tags, reporting the first
    /// violation.
    pub fn validate(&self) -> (r: Result<(), CleanboxError>)
        ensures
            r is Ok <==> valid_document_input(self),
            r matches Err(e) ==> e is InvalidUserInput,
    {
        let date_ok = self.validate_date();
        if let Err(e) = date_ok {
            return Err(e);
        }
        let desc_ok = self.validate_description();
        if let Err(e) = desc_ok {
            return Err(e);
        }
        let tags_ok = self.validate_tags();
        if let Err(e) = tags_ok {
            return Err(e);
        }
        Ok(())
    }

    /// Accepts exactly the dates of the form `YYYY-MM-DD` with the year
    /// in 1900 to 2100, the month in 01 to 12 and the day in 01 to 31.
    pub fn validate_date(&self) -> (r: Result<(), CleanboxError>)
        ensures
            r is Ok <==> valid_date(self.date@),
            r matches Err(e) ==> e is InvalidUserInput,
    {
        let chars = chars_of(self.date.as_str());
        if chars.len() != 10 || chars[4] != '-' || chars[7] != '-' {
            return Err(CleanboxError::InvalidUserInput(
                "Date must be in YYYY-MM-DD format, got: ".to_owned().concat(self.date.as_str()),
            ));
        }
        if !digits_in_range(&chars, 0, 4) {
            return Err(CleanboxError::InvalidUserInput(
                "Invalid year: ".to_owned().concat(string_from_chars(&subvec(&chars, 0, 4)).as_str()),
            ));
        }
        let year = parse_digits(&chars, 0, 4);
        if !(1900 <= year && year <= 2100) {
            return Err(CleanboxError::InvalidUserInput(
                "Year must be between 1900-2100, got: ".to_owned().concat(
                    string_from_chars(&subvec(&chars, 0, 4)).as_str(),
                ),
            ));
        }
        if !digits_in_range(&chars, 5, 7) {
            return Err(CleanboxError::InvalidUserInput(
                "Invalid month: ".to_owned().concat(string_from_chars(&subvec(&chars, 5, 7)).as_str()),
            ));
        }
        let month = parse_digits(&chars, 5, 7);
        if !(1 <= month && month <= 12) {
            return Err(CleanboxError::InvalidUserInput(
                "Month must be between 01-12, got: ".to_owned().concat(
                    string_from_chars(&subvec(&chars, 5, 7)).as_str(),
                ),
            ));
        }
        if !digits_in_range(&chars, 8, 10) {
            return Err(CleanboxError::InvalidUserInput(
                "Invalid day: ".to_owned().concat(string_from_chars(&subvec(&chars, 8, 10)).as_str()),
            ));
        }
        let day = parse_digits(&chars, 8, 10);
        if !(1 <= day && day <= 31) {
            return Err(CleanboxError::InvalidUserInput(
                "Day must be between 01-31, got: ".to_owned().concat(
                    string_from_chars(&subvec(&chars, 8, 10)).as_str(),
                ),
            ));
        }
        Ok(())
    }

    /// Accepts exactly the valid kebab-case descriptions.
    pub fn validate_description(&self) -> (r: Result<(), CleanboxError>)
        ensures
            r is Ok <==> valid_kebab(self.description@),
            r matches Err(e) ==> e is InvalidUserInput,
    {
        let chars = chars_of(self.description.as_str());
        match kebab_flaw(&chars) {
            0 => Ok(()),
            1 => Err(CleanboxError::InvalidUserInput("Description cannot be empty".to_owned())),
            2 => Err(
                CleanboxError::InvalidUserInput(
                    "Description must be in kebab-case (lowercase, numbers, hyphens only): "
                        .to_owned().concat(self.description.as_str()),
                ),
            ),
            3 => Err(
                CleanboxError::InvalidUserInput(
                    "Description cannot start or end with hyphen: ".to_owned().concat(
                        self.description.as_str(),
                    ),
                ),
            ),
            _ => Err(
                CleanboxError::InvalidUserInput(
                    "Description cannot contain consecutive hyphens: ".to_owned().concat(
                        self.description.as_str(),
                    ),
                ),
            ),
        }
    }

    /// Accepts exactly a non-empty list of valid kebab-case tags.
    pub fn validate_tags(&self) -> (r: Result<(), CleanboxError>)
        ensures
            r is Ok <==> self.tags@.len() > 0 && forall|i: int|
                0 <= i < self.tags@.len() ==> valid_kebab(self.tags@[i]@),
            r matches Err(e) ==> e is InvalidUserInput,
    {
        if self.tags.len() == 0 {
            return Err(CleanboxError::InvalidUserInput("At least one tag is required".to_owned()));
        }
        let n = self.tags.len();
        let mut i: usize = 0;
        while i < n
            invariant
                n == self.tags@.len(),
                forall|j: int| 0 <= j < i ==> valid_kebab(self.tags@[j]@),
            decreases n - i,
        {
            let chars = chars_of(self.tags[i].as_str());
            match kebab_flaw(&chars) {
                0 => (),
                1 => {
                    return Err(
                        CleanboxError::InvalidUserInput("Tag cannot be empty".to_owned()),
                    );
                },
                2 => {
                    return Err(
                        CleanboxError::InvalidUserInput(
                            "Tag must be in kebab-case (lowercase, numbers, hyphens only): "
                                .to_owned().concat(self.tags[i].as_str()),
                        ),
                    );
                },
                3 => {
                    return Err(
                        CleanboxError::InvalidUserInput(
                            "Tag cannot start or end with hyphen: ".to_owned().concat(
                                self.tags[i].as_str(),
                            ),
                        ),
                    );
                },
                _ => {
                    return Err(
                        CleanboxError::InvalidUserInput(
                            "Tag cannot contain consecutive hyphens: ".to_owned().concat(
                                self.tags[i].as_str(),
                            ),
                        ),
                    );
                },
            }
            i = i + 1;
        }
        Ok(())
    }

    /// The filename stem this input turns into:
    /// `date_description@@tag1,tag2,...`.
    pub fn to_filename_stem(&self) -> (r: String)
        ensures
            r@ == filename_stem_spec(self),
    {
        let mut out: Vec<char> = Vec::new();
        push_all(&mut out, &chars_of(self.date.as_str()));
        out.push('_');
        push_all(&mut out, &chars_of(self.description.as_str()));
        out.push('@');
        out.push('@');
        let joined = join_tags(&self.tags);
        push_all(&mut out, &joined);
        proof {
            assert(out@ =~= filename_stem_spec(self));
        }
        string_from_chars(&out)
    }
}

/// A date separator a file name may use between date components.
pub open spec fn sep_char(c: char) -> bool {
    c == '-' || c == '_'
}

/// Two digits standing at index `i`.
pub open spec fn two_digits_at(s: Seq<char>, i: int) -> bool {
    0 <= i && i + 2 <= s.len() && is_digit(s[i]) && is_digit(s[i + 1])
}

/// Four digits standing at index `i`.
pub open spec fn four_digits_at(s: Seq<char>, i: int) -> bool {
    0 <= i && i + 4 <= s.len() && is_digit(s[i]) && is_digit(s[i + 1]) && is_digit(s[i + 2])
        && is_digit(s[i + 3])
}

/// Where the month digits of a date pattern starting at `i` stand: the
/// optional separator after the year is consumed when present.
pub open spec fn month_start(s: Seq<char>, i: int) -> int {
    if i + 4 < s.len() && sep_char(s[i + 4]) {
        i + 5
    } else {
        i + 4
    }
}

/// Where the day digits of a date pattern starting at `i` stand.
pub open spec fn day_start(s: Seq<char>, i: int) -> int {
    let m = month_start(s, i);
    if m + 2 < s.len() && sep_char(s[m + 2]) {
        m + 3
    } else {
        m + 2
    }
}

/// A date pattern at index `i`: four year digits, an optional `-` or
/// `_`, two month digits, an optional `-` or `_`, two day digits.
pub open spec fn date_pat_at(s: Seq<char>, i: int) -> bool {
    four_digits_at(s, i) && two_digits_at(s, month_start(s, i)) && two_digits_at(
        s,
        day_start(s, i),
    )
}

/// A compact date pattern at index `i`: eight digits with no separator.
pub open spec fn compact_pat_at(s: Seq<char>, i: int) -> bool {
    four_digits_at(s, i) && two_digits_at(s, i + 4) && two_digits_at(s, i + 6)
}

/// The in-range check date extraction applies to what it finds.
pub open spec fn date_in_range(y: int, m: int, d: int) -> bool {
    1900 <= y <= 2100 && 1 <= m <= 12 && 1 <= d <= 31
}

/// The `YYYY-MM-DD` rendering of the date pattern at `i`, built from
/// the captured digit runs.
pub open spec fn date_pat_fmt(s: Seq<char>, i: int) -> Seq<char> {
    let m = month_start(s, i);
    let d = day_start(s, i);
    s.subrange(i, i + 4) + seq!['-'] + s.subrange(m, m + 2) + seq!['-'] + s.subrange(d, d + 2)
}

/// The `YYYY-MM-DD` rendering of the compact pattern at `i`.
pub open spec fn compact_pat_fmt(s: Seq<char>, i: int) -> Seq<char> {
    s.subrange(i, i + 4) + seq!['-'] + s.subrange(i + 4, i + 6) + seq!['-'] + s.subrange(
        i + 6,
        i + 8,
    )
}

/// True when the date pattern at `i` carries in-range components.
pub open spec fn date_pat_valid(s: Seq<char>, i: int) -> bool {
    date_pat_at(s, i) && date_in_range(
        digits_val(s.subrange(i, i + 4)),
        digits_val(s.subrange(month_start(s, i), month_start(s, i) + 2)),
        digits_val(s.subrange(day_start(s, i), day_start(s, i) + 2)),
    )
}

/// True when the compact pattern at `i` carries in-range components.
pub open spec fn compact_pat_valid(s: Seq<char>, i: int) -> bool {
    compact_pat_at(s, i) && date_in_range(
        digits_val(s.subrange(i, i + 4)),
        digits_val(s.subrange(i + 4, i + 6)),
        digits_val(s.subrange(i + 6, i + 8)),
    )
}

/// The first index at or after `i` where the date pattern matches.
pub open spec fn first_date_pat(s: Seq<char>, i: int) -> Option<int>
    decreases s.len() - i,
    when 0 <= i
{
    if i + 8 > s.len() {
        None
    } else if date_pat_at(s, i) {
        Some(i)
    } else {
        first_date_pat(s, i + 1)
    }
}

/// The first index at or after `i` where the compact pattern matches.
pub open spec fn first_compact_pat(s: Seq<char>, i: int) -> Option<int>
    decreases s.len() - i,
    when 0 <= i
{
    if i + 8 > s.len() {
        None
    } else if compact_pat_at(s, i) {
        Some(i)
    } else {
        first_compact_pat(s, i + 1)
    }
}

/// What date extraction yields on a path: the first separated date
/// pattern of its file name when that one is in range; otherwise the
/// first compact pattern when in range; otherwise nothing.
pub open spec fn extract_date_spec(p: Seq<char>) -> Option<Seq<char>> {
    let s = file_name_spec(p);
    match first_date_pat(s, 0) {
        Some(i) => if date_pat_valid(s, i) {
            Some(date_pat_fmt(s, i))
        } else {
            compact_scan_spec(s)
        },
        None => compact_scan_spec(s),
    }
}

/// The second pass of date extraction: the first compact pattern, when
/// its components are in range.
pub open spec fn compact_scan_spec(s: Seq<char>) -> Option<Seq<char>> {
    match first_compact_pat(s, 0) {
        Some(i) => if compact_pat_valid(s, i) {
            Some(compact_pat_fmt(s, i))
        } else {
            None
        },
        None => None,
    }
}

/// Decides whether a digit stands at `i`.
fn digit_at(v: &Vec<char>, i: usize) -> (r: bool)
    requires
        i < v@.len(),
    ensures
        r == is_digit(v@[i as int]),
{
    let c = v[i];
    '0' <= c && c <= '9'
}

/// Decides whether a separator stands at `i`.
fn sep_at(v: &Vec<char>, i: usize) -> (r: bool)
    requires
        i < v@.len(),
    ensures
        r == sep_char(v@[i as int]),
{
    let c = v[i];
    c == '-' || c == '_'
}

/// Decides the date pattern at `i` and hands back the month and day
/// positions.
fn date_pat_check(v: &Vec<char>, i: usize) -> (r: Option<(usize, usize)>)
    requires
        i + 8 <= v@.len(),
    ensures
        match r {
            Some((m, d)) => date_pat_at(v@, i as int) && m == month_start(v@, i as int) && d
                == day_start(v@, i as int),
            None => !date_pat_at(v@, i as int),
        },
{
    let n = v.len();
    if !(digit_at(v, i) && digit_at(v, i + 1) && digit_at(v, i + 2) && digit_at(v, i + 3)) {
        return None;
    }
    let m = if i + 4 < n && sep_at(v, i + 4) {
        i + 5
    } else {
        i + 4
    };
    if !(m + 2 <= n && digit_at(v, m) && digit_at(v, m + 1)) {
        return None;
    }
    let d = if m + 2 < n && sep_at(v, m + 2) {
        m + 3
    } else {
        m + 2
    };
    if !(d <= n - 2 && digit_at(v, d) && digit_at(v, d + 1)) {
        return None;
    }
    Some((m, d))
}

/// Decides the compact pattern at `i`.
fn compact_pat_check(v: &Vec<char>, i: usize) -> (r: bool)
    requires
        i + 8 <= v@.len(),
    ensures
        r == compact_pat_at(v@, i as int),
{
    let _n = v.len();
    digit_at(v, i) && digit_at(v, i + 1) && digit_at(v, i + 2) && digit_at(v, i + 3) && digit_at(
        v,
        i + 4,
    ) && digit_at(v, i + 5) && digit_at(v, i + 6) && digit_at(v, i + 7)
}

/// Parses the two-digit run at `i`.
fn two_digit_val(v: &Vec<char>, i: usize) -> (r: u32)
    requires
        two_digits_at(v@, i as int),
        i + 2 <= v@.len(),
    ensures
        r == digits_val(v@.subrange(i as int, i + 2)),
{
    let _n = v.len();
    proof {
        assert(all_digits(v@.subrange(i as int, i + 2))) by {
            assert(forall|j: int|
                0 <= j < 2 ==> #[trigger] v@.subrange(i as int, i + 2)[j] == v@[i + j]);
        }
    }
    parse_digits(v, i, i + 2)
}

/// Parses the four-digit run at `i`.
fn four_digit_val(v: &Vec<char>, i: usize) -> (r: u32)
    requires
        four_digits_at(v@, i as int),
        i + 4 <= v@.len(),
    ensures
        r == digits_val(v@.subrange(i as int, i + 4)),
{
    let _n = v.len();
    proof {
        assert(all_digits(v@.subrange(i as int, i + 4))) by {
            assert(forall|j: int|
                0 <= j < 4 ==> #[trigger] v@.subrange(i as int, i + 4)[j] == v@[i + j]);
        }
    }
    parse_digits(v, i, i + 4)
}

/// Builds `YYYY-MM-DD` out of the three digit runs at `y`, `m` and `d`.
fn build_date(v: &Vec<char>, y: usize, m: usize, d: usize) -> (r: String)
    requires
        y + 4 <= v@.len(),
        m + 2 <= v@.len(),
        d + 2 <= v@.len(),
    ensures
        r@ == v@.subrange(y as int, y + 4) + seq!['-'] + v@.subrange(m as int, m + 2)
            + seq!['-'] + v@.subrange(d as int, d + 2),
{
    let _n = v.len();
    let mut out: Vec<char> = Vec::new();
    push_all(&mut out, &subvec(v, y, y + 4));
    out.push('-');
    push_all(&mut out, &subvec(v, m, m + 2));
    out.push('-');
    push_all(&mut out, &subvec(v, d, d + 2));
    proof {
        assert(out@ =~= v@.subrange(y as int, y + 4) + seq!['-'] + v@.subrange(m as int, m + 2)
            + seq!['-'] + v@.subrange(d as int, d + 2));
    }
    string_from_chars(&out)
}

/// Finds the first index where the separated date pattern matches, with
/// its month and day positions.
fn find_first_date_pat(name: &Vec<char>) -> (r: Option<(usize, usize, usize)>)
    ensures
        match r {
            Some((f, m, d)) => first_date_pat(name@, 0) == Some(f as int) && f + 8 <= name@.len()
                && date_pat_at(name@, f as int) && m == month_start(name@, f as int) && d
                == day_start(name@, f as int),
            None => first_date_pat(name@, 0) is None,
        },
{
    let n = name.len();
    if n < 8 {
        return None;
    }
    let last = n - 8;
    let mut i: usize = 0;
    while i <= last
        invariant
            n == name@.len(),
            8 <= n,
            last == n - 8,
            i <= last + 1,
            first_date_pat(name@, 0) == first_date_pat(name@, i as int),
        decreases last + 1 - i,
    {
        match date_pat_check(name, i) {
            Some((m, d)) => {
                return Some((i, m, d));
            },
            None => {
                proof {
                    assert(first_date_pat(name@, i as int) == first_date_pat(name@, i + 1));
                }
                i = i + 1;
            },
        }
    }
    proof {
        assert(first_date_pat(name@, i as int) is None);
    }
    None
}

/// Finds the first index where the compact eight-digit pattern matches.
fn find_first_compact_pat(name: &Vec<char>) -> (r: Option<usize>)
    ensures
        match r {
            Some(f) => first_compact_pat(name@, 0) == Some(f as int) && f + 8 <= name@.len()
                && compact_pat_at(name@, f as int),
            None => first_compact_pat(name@, 0) is None,
        },
{
    let n = name.len();
    if n < 8 {
        return None;
    }
    let last = n - 8;
    let mut i: usize = 0;
    while i <= last
        invariant
            n == name@.len(),
            8 <= n,
            last == n - 8,
            i <= last + 1,
            first_compact_pat(name@, 0) == first_compact_pat(name@, i as int),
        decreases last + 1 - i,
    {
        if compact_pat_check(name, i) {
            return Some(i);
        }
        proof {
            assert(first_compact_pat(name@, i as int) == first_compact_pat(name@, i + 1));
        }
        i = i + 1;
    }
    proof {
        assert(first_compact_pat(name@, i as int) is None);
    }
    None
}

/// Extracts a date in `YYYY-MM-DD` form from a file name, trying the
/// separated pattern first and the compact eight-digit pattern second;
/// a found date must have its year in 1900 to 2100, month in 01 to 12
/// and day in 01 to 31.
pub fn extract_date_from_filename(filename: &str) -> (r: Option<String>)
    ensures
        match r {
            Some(d) => extract_date_spec(filename@) matches Some(v) && d@ == v,
            None => extract_date_spec(filename@) is None,
        },
{
    let chars = chars_of(filename);
    let name = crate::pathstr::file_name_chars(&chars);
    match find_first_date_pat(&name) {
        Some((f, m, d)) => {
            let year = four_digit_val(&name, f);
            let month = two_digit_val(&name, m);
            let day = two_digit_val(&name, d);
            if 1900 <= year && year <= 2100 && 1 <= month && month <= 12 && 1 <= day && day
                <= 31 {
                return Some(build_date(&name, f, m, d));
            }
        },
        None => {},
    }
    match find_first_compact_pat(&name) {
        Some(f) => {
            let year = four_digit_val(&name, f);
            let month = two_digit_val(&name, f + 4);
            let day = two_digit_val(&name, f + 6);
            if 1900 <= year && year <= 2100 && 1 <= month && month <= 12 && 1 <= day && day
                <= 31 {
                Some(build_date(&name, f, f + 4, f + 6))
            } else {
                None
            }
        },
        None => None,
    }
}

/// Relies on `std::time::SystemTime::now`: the clock's current value,
/// about which nothing can be promised.
#[verifier::external_body]
fn system_time_now() -> std::time::SystemTime {
    std::time::SystemTime::now()
}

/// Relies on `std::time::SystemTime::duration_since` against the Unix
/// epoch: the time as whole seconds and subsecond nanoseconds, `Ok`
/// after the epoch and `Err` before it. The input is opaque here, so
/// nothing is promised of the numbers.
#[verifier::external_body]
fn epoch_offset(system_time: std::time::SystemTime) -> Result<(u64, u32), (u64, u32)> {
    match system_time.duration_since(std::time::UNIX_EPOCH) {
        Ok(d) => Ok((d.as_secs(), d.subsec_nanos())),
        Err(e) => Err((e.duration().as_secs(), e.duration().subsec_nanos())),
    }
}

/// Relies on chrono's `DateTime::from_timestamp` and `%Y-%m-%d`
/// formatting: the UTC date of an epoch timestamp, `None` when the
/// timestamp lies outside the range chrono represents; never panics.
#[verifier::external_body]
fn utc_date_of_timestamp(secs: i64, nsecs: u32) -> Option<String> {
    match chrono::DateTime::<chrono::Utc>::from_timestamp(secs, nsecs) {
        Some(dt) => Some(dt.format("%Y-%m-%d").to_string()),
        None => None,
    }
}

/// Converts a system time to its UTC date as `YYYY-MM-DD`; `None` for
/// the extreme times the calendar library does not represent. The value
/// depends on an opaque input, so nothing is promised of the text;
/// callers validate it where it matters.
pub fn format_system_time_to_date(system_time: std::time::SystemTime) -> Option<String> {
    match epoch_offset(system_time) {
        Ok((sec, nsec)) => {
            if sec > i64::MAX as u64 {
                return None;
            }
            utc_date_of_timestamp(sec as i64, nsec)
        },
        Err((sec, nsec)) => {
            if sec > i64::MAX as u64 || nsec > 1000000000 {
                return None;
            }
            if nsec == 0 {
                utc_date_of_timestamp(-(sec as i64), 0)
            } else {
                utc_date_of_timestamp(-(sec as i64) - 1, 1000000000 - nsec)
            }
        },
    }
}

/// Today's date in UTC as `YYYY-MM-DD`; the epoch date stands in on a
/// clock the calendar library cannot represent. The value depends on
/// the clock, so nothing is promised of it; callers validate it where
/// it matters.
pub fn today_date_string() -> String {
    match format_system_time_to_date(system_time_now()) {
        Some(date) => date,
        None => "1970-01-01".to_owned(),
    }
}

/// Suggests a date for a document: one found in its file name wins;
/// otherwise the file's modification date; otherwise today.
pub fn suggest_document_date<F: FileManager>(filename: &str, file_manager: &F) -> (r: String)
    ensures
        extract_date_spec(filename@) matches Some(d) ==> r@ == d,
{
    if let Some(date_from_filename) = extract_date_from_filename(filename) {
        return date_from_filename;
    }
    if let Ok(modified_time) = file_manager.get_file_modified_time(filename) {
        if let Some(date_from_filesystem) = format_system_time_to_date(modified_time) {
            return date_from_filesystem;
        }
    }
    today_date_string()
}

/// Joins tags with commas, in order.
pub fn join_tags(tags: &Vec<String>) -> (r: Vec<char>)
    ensures
        r@ == join_comma(tags.deep_view()),
{
    let n = tags.len();
    let mut out: Vec<char> = Vec::new();
    let mut i: usize = 0;
    while i < n
        invariant
            n == tags@.len(),
            i <= n,
            out@ == join_comma(tags.deep_view().take(i as int)),
        decreases n - i,
    {
        if i > 0 {
            out.push(',');
        }
        push_all(&mut out, &chars_of(tags[i].as_str()));
        proof {
            let parts = tags.deep_view();
            assert(parts.take(i + 1 as int).drop_last() =~= parts.take(i as int));
            assert(parts.take(i + 1 as int).last() == parts[i as int]);
            if i == 0 {
                assert(out@ =~= join_comma(parts.take(1)));
            } else {
                assert(out@ =~= join_comma(parts.take(i as int)) + seq![','] + parts[i as int]);
            }
        }
        i = i + 1;
    }
    proof {
        assert(tags.deep_view().take(n as int) =~= tags.deep_view());
    }
    out
}

} // verus!
