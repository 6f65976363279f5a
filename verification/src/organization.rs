//! Organization strategies: which directory under a base root a file is
//! filed into. Monthly and yearly layouts parse the capture datetime,
//! the flat layout keeps everything at the root, the custom layout
//! substitutes a template, and the document layout follows the
//! user-supplied date.

use vstd::prelude::*;
use vstd::string::*;
use crate::document::DocumentInput;
use crate::error::CleanboxError;
use crate::media::{File, FileMetadata, FileType};
use crate::pathstr::{join_spec, path_join};
use crate::text::{chars_of, replace_all, replace_seq, split_char, split_on, string_from_chars};

verus! {

/// The year component of a capture datetime: the text before the first
/// `-` of the part before the first `_`.
pub open spec fn datetime_year(dt: Seq<char>) -> Seq<char> {
    split_char(split_char(dt, '_')[0], '-')[0]
}

/// True when the date part of a capture datetime has a month component:
/// its part before the first `_` holds a `-`.
pub open spec fn datetime_has_month(dt: Seq<char>) -> bool {
    split_char(split_char(dt, '_')[0], '-').len() >= 2
}

/// The month component of a capture datetime: the text between the
/// first and second `-` of its date part.
pub open spec fn datetime_month(dt: Seq<char>) -> Seq<char> {
    split_char(split_char(dt, '_')[0], '-')[1]
}

/// Splits the year and month out of a capture datetime
/// (`YYYY-MM-DD_HH-MM-SS`); any text with a `-` before the first `_`
/// passes, and the components are handed back as they stand.
pub fn parse_datetime_parts(datetime: &str) -> (r: Result<(String, String), CleanboxError>)
    ensures
        r is Ok <==> datetime_has_month(datetime@),
        r matches Ok(p) ==> p.0@ == datetime_year(datetime@) && p.1@ == datetime_month(
            datetime@,
        ),
        r matches Err(e) ==> e is InvalidDateTime,
{
    let chars = chars_of(datetime);
    let date_and_time = split_on(&chars, '_');
    proof {
        assert(date_and_time@[0]@ == split_char(datetime@, '_')[0]);
    }
    let comps = split_on(&date_and_time[0], '-');
    if comps.len() < 2 {
        return Err(
            CleanboxError::InvalidDateTime("Invalid date format - missing month".to_owned()),
        );
    }
    proof {
        assert(comps@[0]@ == split_char(split_char(datetime@, '_')[0], '-')[0]);
        assert(comps@[1]@ == split_char(split_char(datetime@, '_')[0], '-')[1]);
    }
    let year = string_from_chars(&comps[0]);
    let month = string_from_chars(&comps[1]);
    Ok((year, month))
}

/// How a strategy places a file under a base directory: `None` exactly
/// when `determine_target_directory` must fail on it.
pub trait OrganizationStrategy {
    /// The directory the strategy derives, when it can.
    spec fn target_spec(&self, file: &File, base: Seq<char>) -> Option<Seq<char>>;

    /// Derives the target directory, failing exactly where
    /// `target_spec` is `None`.
    fn determine_target_directory(&self, file: &File, base_path: &str) -> (r: Result<
        String,
        CleanboxError,
    >)
        ensures
            r is Ok <==> self.target_spec(file, base_path@) is Some,
            r matches Ok(d) ==> self.target_spec(file, base_path@) == Some(d@),
    ;
}

/// Files media under `base/year/month`, read from the capture datetime.
pub struct MonthlyOrganizer;

impl MonthlyOrganizer {
    /// A fresh organizer; it has no configuration.
    pub fn new() -> Self {
        MonthlyOrganizer
    }
}

impl OrganizationStrategy for MonthlyOrganizer {
    open spec fn target_spec(&self, file: &File, base: Seq<char>) -> Option<Seq<char>> {
        match file.metadata {
            Some(m) => match m.datetime_original {
                Some(dt) => if datetime_has_month(dt@) {
                    Some(join_spec(join_spec(base, datetime_year(dt@)), datetime_month(dt@)))
                } else {
                    None
                },
                None => None,
            },
            None => None,
        }
    }

    /// Fails with a metadata error when no datetime is present, else a
    /// datetime error when the month cannot be split off.
    fn determine_target_directory(&self, file: &File, base_path: &str) -> (r: Result<
        String,
        CleanboxError,
    >)
        ensures
            r matches Err(e) ==> match file.metadata {
                Some(m) => if m.datetime_original is Some {
                    e is InvalidDateTime
                } else {
                    e is Exif
                },
                None => e is Exif,
            },
    {
        let datetime = match &file.metadata {
            Some(m) => match &m.datetime_original {
                Some(dt) => dt,
                None => {
                    return Err(
                        CleanboxError::Exif("No datetime available for organization".to_owned()),
                    );
                },
            },
            None => {
                return Err(
                    CleanboxError::Exif("No datetime available for organization".to_owned()),
                );
            },
        };
        let (year, month) = match parse_datetime_parts(datetime.as_str()) {
            Ok(p) => p,
            Err(e) => {
                return Err(e);
            },
        };
        Ok(path_join(path_join(base_path, year.as_str()).as_str(), month.as_str()))
    }
}

/// Files everything directly under the base directory.
pub struct FlatOrganizer;

impl FlatOrganizer {
    /// A fresh organizer; it has no configuration.
    pub fn new() -> Self {
        FlatOrganizer
    }
}

impl OrganizationStrategy for FlatOrganizer {
    open spec fn target_spec(&self, file: &File, base: Seq<char>) -> Option<Seq<char>> {
        Some(base)
    }

    fn determine_target_directory(&self, file: &File, base_path: &str) -> (r: Result<
        String,
        CleanboxError,
    >) {
        Ok(base_path.to_owned())
    }
}

/// Files media under `base/year`, read from the capture datetime. The
/// datetime must still carry a month for the parse to pass.
pub struct YearlyOrganizer;

impl YearlyOrganizer {
    /// A fresh organizer; it has no configuration.
    pub fn new() -> Self {
        YearlyOrganizer
    }
}

impl OrganizationStrategy for YearlyOrganizer {
    open spec fn target_spec(&self, file: &File, base: Seq<char>) -> Option<Seq<char>> {
        match file.metadata {
            Some(m) => match m.datetime_original {
                Some(dt) => if datetime_has_month(dt@) {
                    Some(join_spec(base, datetime_year(dt@)))
                } else {
                    None
                },
                None => None,
            },
            None => None,
        }
    }

    /// Fails with a metadata error when no datetime is present, else a
    /// datetime error when the month cannot be split off.
    fn determine_target_directory(&self, file: &File, base_path: &str) -> (r: Result<
        String,
        CleanboxError,
    >)
        ensures
            r matches Err(e) ==> match file.metadata {
                Some(m) => if m.datetime_original is Some {
                    e is InvalidDateTime
                } else {
                    e is Exif
                },
                None => e is Exif,
            },
    {
        let datetime = match &file.metadata {
            Some(m) => match &m.datetime_original {
                Some(dt) => dt,
                None => {
                    return Err(
                        CleanboxError::Exif("No datetime available for organization".to_owned()),
                    );
                },
            },
            None => {
                return Err(
                    CleanboxError::Exif("No datetime available for organization".to_owned()),
                );
            },
        };
        let (year, _month) = match parse_datetime_parts(datetime.as_str()) {
            Ok(p) => p,
            Err(e) => {
                return Err(e);
            },
        };
        Ok(path_join(base_path, year.as_str()))
    }
}

/// The lowercase name of a file category, as the `{media_type}`
/// placeholder renders it.
pub open spec fn media_type_name(t: FileType) -> Seq<char> {
    match t {
        FileType::Image => "image"@,
        FileType::Video => "video"@,
        FileType::Document => "document"@,
        FileType::Unknown => "unknown"@,
    }
}

/// The datetime-derived substitutions of the custom directory template:
/// `{datetime}` always; `{year}`, `{month}` and `{day}` only where the
/// datetime splits into the expected parts.
pub open spec fn org_datetime_subst(r0: Seq<char>, dt: Seq<char>) -> Seq<char> {
    let r1 = replace_seq(r0, "{datetime}"@, dt);
    let parts = split_char(dt, '_');
    if parts.len() == 2 {
        let dparts = split_char(parts[0], '-');
        if dparts.len() == 3 {
            replace_seq(
                replace_seq(replace_seq(r1, "{year}"@, dparts[0]), "{month}"@, dparts[1]),
                "{day}"@,
                dparts[2],
            )
        } else {
            r1
        }
    } else {
        r1
    }
}

/// The custom directory template fully substituted for a file, joined
/// under the base; unmatched placeholders stay in place, and a file
/// without metadata gets the template verbatim.
pub open spec fn custom_dir_spec(pattern: Seq<char>, file: &File, base: Seq<char>) -> Seq<
    char,
> {
    let r1 = match file.metadata {
        Some(m) => {
            let ra = match m.datetime_original {
                Some(dt) => org_datetime_subst(pattern, dt@),
                None => pattern,
            };
            replace_seq(ra, "{media_type}"@, media_type_name(m.file_type))
        },
        None => pattern,
    };
    join_spec(base, r1)
}

/// Files under a template-derived subdirectory with placeholders for
/// the date parts and the media type.
pub struct CustomOrganizer {
    pub pattern: String,
}

impl CustomOrganizer {
    /// An organizer around the given template.
    pub fn new(pattern: String) -> (r: Self)
        ensures
            r.pattern == pattern,
    {
        CustomOrganizer { pattern }
    }
}

impl OrganizationStrategy for CustomOrganizer {
    open spec fn target_spec(&self, file: &File, base: Seq<char>) -> Option<Seq<char>> {
        Some(custom_dir_spec(self.pattern@, file, base))
    }

    fn determine_target_directory(&self, file: &File, base_path: &str) -> (r: Result<
        String,
        CleanboxError,
    >) {
        proof {
            reveal_strlit("{datetime}");
            reveal_strlit("{year}");
            reveal_strlit("{month}");
            reveal_strlit("{day}");
            reveal_strlit("{media_type}");
        }
        let mut result = chars_of(self.pattern.as_str());
        match &file.metadata {
            Some(m) => {
                match &m.datetime_original {
                    Some(dt) => {
                        let dtc = chars_of(dt.as_str());
                        result = replace_all(&result, &chars_of("{datetime}"), &dtc);
                        let parts = split_on(&dtc, '_');
                        if parts.len() == 2 {
                            proof {
                                assert(parts@[0]@ == split_char(dt@, '_')[0]);
                            }
                            let dparts = split_on(&parts[0], '-');
                            if dparts.len() == 3 {
                                proof {
                                    assert(dparts@[0]@ == split_char(split_char(dt@, '_')[0], '-')[0]);
                                    assert(dparts@[1]@ == split_char(split_char(dt@, '_')[0], '-')[1]);
                                    assert(dparts@[2]@ == split_char(split_char(dt@, '_')[0], '-')[2]);
                                }
                                result = replace_all(&result, &chars_of("{year}"), &dparts[0]);
                                result = replace_all(&result, &chars_of("{month}"), &dparts[1]);
                                result = replace_all(&result, &chars_of("{day}"), &dparts[2]);
                            }
                        }
                    },
                    None => {},
                }
                let category_name = match m.file_type {
                    FileType::Image => "image",
                    FileType::Video => "video",
                    FileType::Document => "document",
                    FileType::Unknown => "unknown",
                };
                result = replace_all(&result, &chars_of("{media_type}"), &chars_of(category_name));
            },
            None => {},
        }
        Ok(path_join(base_path, string_from_chars(&result).as_str()))
    }
}

/// Files documents under `base/year/month`, read from the user-supplied
/// date; falls back to the capture datetime when called through the
/// generic contract.
pub struct DocumentOrganizer;

impl DocumentOrganizer {
    /// A fresh organizer; it has no configuration.
    pub fn new() -> Self {
        DocumentOrganizer
    }

    /// The document target `base/year/month` read from the input's
    /// date, which must split on `-` into exactly three parts; the
    /// parts pass through as they stand, single-digit components
    /// included.
    pub fn determine_target_directory_from_input(
        &self,
        document_input: &DocumentInput,
        base_path: &str,
    ) -> (r: Result<String, CleanboxError>)
        ensures
            r is Ok <==> split_char(document_input.date@, '-').len() == 3,
            r matches Ok(d) ==> d@ == join_spec(
                join_spec(base_path@, split_char(document_input.date@, '-')[0]),
                split_char(document_input.date@, '-')[1],
            ),
            r matches Err(e) ==> e is InvalidDateTime,
    {
        let chars = chars_of(document_input.date.as_str());
        let date_parts = split_on(&chars, '-');
        if date_parts.len() != 3 {
            return Err(
                CleanboxError::InvalidDateTime(
                    "Invalid date format in DocumentInput: ".to_owned().concat(
                        document_input.date.as_str(),
                    ),
                ),
            );
        }
        proof {
            assert(date_parts@[0]@ == split_char(document_input.date@, '-')[0]);
            assert(date_parts@[1]@ == split_char(document_input.date@, '-')[1]);
        }
        let year = string_from_chars(&date_parts[0]);
        let month = string_from_chars(&date_parts[1]);
        Ok(path_join(path_join(base_path, year.as_str()).as_str(), month.as_str()))
    }
}

impl OrganizationStrategy for DocumentOrganizer {
    open spec fn target_spec(&self, file: &File, base: Seq<char>) -> Option<Seq<char>> {
        match file.metadata {
            Some(m) => match m.datetime_original {
                Some(dt) => if datetime_has_month(dt@) {
                    Some(join_spec(join_spec(base, datetime_year(dt@)), datetime_month(dt@)))
                } else {
                    None
                },
                None => None,
            },
            None => None,
        }
    }

    /// The compatibility path: organizes by capture datetime as the
    /// monthly layout does, failing with a user-input error when no
    /// datetime is present.
    fn determine_target_directory(&self, file: &File, base_path: &str) -> (r: Result<
        String,
        CleanboxError,
    >)
        ensures
            r matches Err(e) ==> match file.metadata {
                Some(m) => if m.datetime_original is Some {
                    e is InvalidDateTime
                } else {
                    e is InvalidUserInput
                },
                None => e is InvalidUserInput,
            },
    {
        let datetime = match &file.metadata {
            Some(m) => match &m.datetime_original {
                Some(dt) => dt,
                None => {
                    return Err(
                        CleanboxError::InvalidUserInput(
                            "DocumentOrganizer requires datetime information. Use determine_target_directory_from_input() for interactive document processing"
                                .to_owned(),
                        ),
                    );
                },
            },
            None => {
                return Err(
                    CleanboxError::InvalidUserInput(
                        "DocumentOrganizer requires datetime information. Use determine_target_directory_from_input() for interactive document processing"
                            .to_owned(),
                    ),
                );
            },
        };
        let (year, month) = match parse_datetime_parts(datetime.as_str()) {
            Ok(p) => p,
            Err(e) => {
                return Err(e);
            },
        };
        Ok(path_join(path_join(base_path, year.as_str()).as_str(), month.as_str()))
    }
}

/// Organization is a function of the file and base alone: any two
/// directories the contract admits for one strategy, file and base are
/// the same directory, so repeating an organization run changes
/// nothing.
pub proof fn lemma_target_directory_deterministic<S: OrganizationStrategy>(
    strategy: &S,
    file: &File,
    base: Seq<char>,
    r1: Seq<char>,
    r2: Seq<char>,
)
    requires
        strategy.target_spec(file, base) == Some(r1),
        strategy.target_spec(file, base) == Some(r2),
    ensures
        r1 == r2,
{
}

} // verus!
