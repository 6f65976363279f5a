//! Naming strategies: what a file is renamed to. The timestamp strategy
//! names media by capture datetime, the custom strategy substitutes
//! placeholders in a template, and the document strategy derives the
//! name from user-supplied input.

use vstd::prelude::*;
use vstd::string::*;
use crate::document::{filename_stem_spec, valid_document_input, DocumentInput};
use crate::error::CleanboxError;
use crate::media::{File, FileMetadata};
use crate::pathstr::{extension_spec, file_name_spec, has_extension_spec, stem_spec};
use crate::text::{chars_of, push_all, replace_all, replace_seq, split_char, split_on,
    string_from_chars, subvec};

verus! {

/// How a strategy names a file: `None` exactly when `generate_name`
/// must fail on it.
pub trait NamingStrategy {
    /// The name the strategy derives from the file, when it can.
    spec fn name_spec(&self, file: &File) -> Option<Seq<char>>;

    /// Derives the new name, failing exactly where `name_spec` is
    /// `None`.
    fn generate_name(&self, file: &File) -> (r: Result<String, CleanboxError>)
        ensures
            r is Ok <==> self.name_spec(file) is Some,
            r matches Ok(n) ==> self.name_spec(file) == Some(n@),
    ;
}

/// Names media by capture datetime: `{datetime}.{ext}`.
pub struct TimestampNamingStrategy;

impl TimestampNamingStrategy {
    /// A fresh strategy; it has no configuration.
    pub fn new() -> Self {
        TimestampNamingStrategy
    }
}

impl NamingStrategy for TimestampNamingStrategy {
    open spec fn name_spec(&self, file: &File) -> Option<Seq<char>> {
        match file.metadata {
            Some(m) => match m.datetime_original {
                Some(dt) => if has_extension_spec(file.path@) {
                    Some(dt@ + seq!['.'] + extension_spec(file.path@))
                } else {
                    None
                },
                None => None,
            },
            None => None,
        }
    }

    /// Fails with a missing-extension error first, then a metadata
    /// error when no capture datetime is present.
    fn generate_name(&self, file: &File) -> (r: Result<String, CleanboxError>)
        ensures
            r matches Err(e) ==> if !has_extension_spec(file.path@) {
                e is InvalidFileExtension
            } else {
                e is Exif
            },
    {
        let extension = match file.extension() {
            Ok(e) => e,
            Err(e) => {
                return Err(e);
            },
        };
        let datetime = match &file.metadata {
            Some(m) => match &m.datetime_original {
                Some(dt) => dt,
                None => {
                    return Err(
                        CleanboxError::Exif("No datetime available for naming".to_owned()),
                    );
                },
            },
            None => {
                return Err(CleanboxError::Exif("No datetime available for naming".to_owned()));
            },
        };
        let mut out: Vec<char> = Vec::new();
        push_all(&mut out, &chars_of(datetime.as_str()));
        out.push('.');
        push_all(&mut out, &chars_of(extension.as_str()));
        proof {
            assert(out@ =~= self.name_spec(file).unwrap());
        }
        Ok(string_from_chars(&out))
    }
}

/// The first six characters of a hash, or all of it when shorter.
pub open spec fn hash6_of(hash: Seq<char>) -> Seq<char> {
    hash.take(
        if hash.len() < 6 {
            hash.len() as int
        } else {
            6
        },
    )
}

/// The datetime-derived substitutions of the custom template:
/// `{datetime}` always; `{year}`, `{month}`, `{day}`, `{hour}`,
/// `{minute}` and `{second}` only where the datetime splits into the
/// expected parts.
pub open spec fn datetime_subst(r0: Seq<char>, dt: Seq<char>) -> Seq<char> {
    let r1 = replace_seq(r0, "{datetime}"@, dt);
    let parts = split_char(dt, '_');
    if parts.len() == 2 {
        let dparts = split_char(parts[0], '-');
        let r2 = if dparts.len() == 3 {
            replace_seq(
                replace_seq(replace_seq(r1, "{year}"@, dparts[0]), "{month}"@, dparts[1]),
                "{day}"@,
                dparts[2],
            )
        } else {
            r1
        };
        let tparts = split_char(parts[1], '-');
        if tparts.len() == 3 {
            replace_seq(
                replace_seq(replace_seq(r2, "{hour}"@, tparts[0]), "{minute}"@, tparts[1]),
                "{second}"@,
                tparts[2],
            )
        } else {
            r2
        }
    } else {
        r1
    }
}

/// The metadata-derived substitutions: datetime placeholders where a
/// datetime is present, then `{hash}` and `{hash6}` where a hash is.
pub open spec fn metadata_subst(pattern: Seq<char>, m: FileMetadata) -> Seq<char> {
    let r1 = match m.datetime_original {
        Some(dt) => datetime_subst(pattern, dt@),
        None => pattern,
    };
    match m.file_hash {
        Some(h) => replace_seq(replace_seq(r1, "{hash}"@, h@), "{hash6}"@, hash6_of(h@)),
        None => r1,
    }
}

/// The custom template fully substituted for a file; unmatched
/// placeholders stay in place. `None` when the file has no usable name
/// or no extension, which the strategy insists on even when the
/// template does not mention them.
pub open spec fn custom_name_spec(pattern: Seq<char>, file: &File) -> Option<Seq<char>> {
    if file_name_spec(file.path@).len() == 0 || !has_extension_spec(file.path@) {
        None
    } else {
        let r1 = match file.metadata {
            Some(m) => metadata_subst(pattern, m),
            None => pattern,
        };
        let r2 = replace_seq(r1, "{original}"@, file_name_spec(file.path@));
        let r3 = replace_seq(r2, "{stem}"@, stem_spec(file.path@));
        Some(replace_seq(r3, "{ext}"@, extension_spec(file.path@)))
    }
}

/// Names files by a template with placeholders for datetime parts,
/// hashes and the original name. Placeholders the metadata cannot fill
/// are left verbatim: partial substitution is intended behavior.
pub struct CustomNamingStrategy {
    pub pattern: String,
}

impl CustomNamingStrategy {
    /// A strategy around the given template.
    pub fn new(pattern: String) -> (r: Self)
        ensures
            r.pattern == pattern,
    {
        CustomNamingStrategy { pattern }
    }
}

/// Replaces one placeholder, given as a string literal, in a working
/// character vector.
fn replace_lit(s: &Vec<char>, from: &str, to: &Vec<char>) -> (r: Vec<char>)
    requires
        from@.len() > 0,
    ensures
        r@ == replace_seq(s@, from@, to@),
{
    let f = chars_of(from);
    replace_all(s, &f, to)
}

impl NamingStrategy for CustomNamingStrategy {
    open spec fn name_spec(&self, file: &File) -> Option<Seq<char>> {
        custom_name_spec(self.pattern@, file)
    }

    /// Fails with an invalid-path error on an empty file name, else a
    /// missing-extension error when the file has no extension.
    fn generate_name(&self, file: &File) -> (r: Result<String, CleanboxError>)
        ensures
            r matches Err(e) ==> if file_name_spec(file.path@).len() == 0 {
                e is InvalidPath
            } else {
                e is InvalidFileExtension
            },
    {
        proof {
            reveal_strlit("{datetime}");
            reveal_strlit("{year}");
            reveal_strlit("{month}");
            reveal_strlit("{day}");
            reveal_strlit("{hour}");
            reveal_strlit("{minute}");
            reveal_strlit("{second}");
            reveal_strlit("{hash}");
            reveal_strlit("{hash6}");
            reveal_strlit("{original}");
            reveal_strlit("{stem}");
            reveal_strlit("{ext}");
        }
        let original_name = match file.file_name() {
            Ok(n) => n,
            Err(e) => {
                return Err(e);
            },
        };
        let stem = match file.file_stem() {
            Ok(s) => s,
            Err(e) => {
                return Err(e);
            },
        };
        let extension = match file.extension() {
            Ok(e) => e,
            Err(e) => {
                return Err(e);
            },
        };
        let mut result = chars_of(self.pattern.as_str());
        match &file.metadata {
            Some(m) => {
                match &m.datetime_original {
                    Some(dt) => {
                        let dtc = chars_of(dt.as_str());
                        result = replace_lit(&result, "{datetime}", &dtc);
                        let parts = split_on(&dtc, '_');
                        if parts.len() == 2 {
                            let dparts = split_on(&parts[0], '-');
                            proof {
                                assert(parts@[0]@ == split_char(dt@, '_')[0]);
                            }
                            if dparts.len() == 3 {
                                proof {
                                    assert(dparts@[0]@ == split_char(split_char(dt@, '_')[0], '-')[0]);
                                    assert(dparts@[1]@ == split_char(split_char(dt@, '_')[0], '-')[1]);
                                    assert(dparts@[2]@ == split_char(split_char(dt@, '_')[0], '-')[2]);
                                }
                                result = replace_lit(&result, "{year}", &dparts[0]);
                                result = replace_lit(&result, "{month}", &dparts[1]);
                                result = replace_lit(&result, "{day}", &dparts[2]);
                            }
                            let tparts = split_on(&parts[1], '-');
                            proof {
                                assert(parts@[1]@ == split_char(dt@, '_')[1]);
                            }
                            if tparts.len() == 3 {
                                proof {
                                    assert(tparts@[0]@ == split_char(split_char(dt@, '_')[1], '-')[0]);
                                    assert(tparts@[1]@ == split_char(split_char(dt@, '_')[1], '-')[1]);
                                    assert(tparts@[2]@ == split_char(split_char(dt@, '_')[1], '-')[2]);
                                }
                                result = replace_lit(&result, "{hour}", &tparts[0]);
                                result = replace_lit(&result, "{minute}", &tparts[1]);
                                result = replace_lit(&result, "{second}", &tparts[2]);
                            }
                        }
                    },
                    None => {},
                }
                match &m.file_hash {
                    Some(h) => {
                        let hc = chars_of(h.as_str());
                        result = replace_lit(&result, "{hash}", &hc);
                        let take = if hc.len() < 6 {
                            hc.len()
                        } else {
                            6
                        };
                        let h6 = subvec(&hc, 0, take);
                        proof {
                            assert(h6@ =~= hash6_of(h@));
                        }
                        result = replace_lit(&result, "{hash6}", &h6);
                    },
                    None => {},
                }
            },
            None => {},
        }
        result = replace_lit(&result, "{original}", &chars_of(original_name.as_str()));
        result = replace_lit(&result, "{stem}", &chars_of(stem.as_str()));
        result = replace_lit(&result, "{ext}", &chars_of(extension.as_str()));
        Ok(string_from_chars(&result))
    }
}

/// Names documents; usable only through `generate_name_from_input`,
/// since a document's name needs user-supplied information.
pub struct DocumentNamingStrategy;

impl DocumentNamingStrategy {
    /// A fresh strategy; it has no configuration.
    pub fn new() -> Self {
        DocumentNamingStrategy
    }

    /// The document filename derived from validated user input:
    /// `{date}_{description}@@{tag1,tag2,...}.{ext}`. Fails exactly on
    /// input that does not validate.
    pub fn generate_name_from_input(
        &self,
        document_input: &DocumentInput,
        extension: &str,
    ) -> (r: Result<String, CleanboxError>)
        ensures
            r is Ok <==> valid_document_input(document_input),
            r matches Ok(n) ==> n@ == filename_stem_spec(document_input) + seq!['.'] + extension@,
            r matches Err(e) ==> e is InvalidUserInput,
    {
        if let Err(e) = document_input.validate() {
            return Err(e);
        }
        let stem = document_input.to_filename_stem();
        let mut out = chars_of(stem.as_str());
        out.push('.');
        push_all(&mut out, &chars_of(extension));
        proof {
            assert(out@ =~= filename_stem_spec(document_input) + seq!['.'] + extension@);
        }
        Ok(string_from_chars(&out))
    }
}

impl NamingStrategy for DocumentNamingStrategy {
    open spec fn name_spec(&self, file: &File) -> Option<Seq<char>> {
        None
    }

    /// Always fails: document names need user input.
    fn generate_name(&self, file: &File) -> (r: Result<String, CleanboxError>)
        ensures
            r matches Err(e) ==> e is InvalidUserInput,
    {
        Err(
            CleanboxError::InvalidUserInput(
                "DocumentNamingStrategy requires user input via generate_name_from_input() method"
                    .to_owned(),
            ),
        )
    }
}

/// Naming is a function of the file alone: any two names the contract
/// admits for one strategy and one file are the same name, so repeating
/// a naming run changes nothing.
pub proof fn lemma_generate_name_deterministic<S: NamingStrategy>(
    strategy: &S,
    file: &File,
    r1: Seq<char>,
    r2: Seq<char>,
)
    requires
        strategy.name_spec(file) == Some(r1),
        strategy.name_spec(file) == Some(r2),
    ensures
        r1 == r2,
{
}

} // verus!
