//! The filesystem as the pipeline sees it: a capability trait that a
//! real or in-memory implementation provides, plus content hashing and
//! the hash-suffix naming used for duplicate targets.

use vstd::prelude::*;
use vstd::string::*;
use sha1::{Digest, Sha1};
use crate::error::CleanboxError;
use crate::pathstr::{after_last, extension_spec, file_name_spec, has_extension_spec, stem_spec};
use crate::text::{chars_of, push_all, string_from_chars, subvec};

verus! {

/// `std::time::SystemTime`, declared so that a file's modification time
/// can be carried through to the date formatter untouched.
#[verifier::external_type_specification]
#[verifier::external_body]
pub struct ExSystemTime(std::time::SystemTime);

/// Every filesystem operation the pipeline needs. Implementations do
/// real I/O (or simulate it), so no call result is specified: callers
/// must cope with every outcome.
pub trait FileManager {
    /// Lists the entries of a directory.
    fn read_directory(&self, path: &str) -> Result<Vec<String>, CleanboxError>;

    /// Creates a directory and its missing parents.
    fn create_directories(&self, path: &str) -> Result<(), CleanboxError>;

    /// Renames a file within its directory.
    fn rename_file(&self, from: &str, to: &str) -> Result<(), CleanboxError>;

    /// Moves a file, creating the target's parent directories.
    fn move_file(&self, from: &str, to: &str) -> Result<(), CleanboxError>;

    /// True when a path exists.
    fn file_exists(&self, path: &str) -> bool;

    /// True when a path names a regular file.
    fn is_file(&self, path: &str) -> bool;

    /// The lowercase-hex content hash of a file.
    fn calculate_file_hash(&self, path: &str) -> Result<String, CleanboxError>;

    /// When a file was last modified.
    fn get_file_modified_time(&self, path: &str) -> Result<
        std::time::SystemTime,
        CleanboxError,
    >;

    /// The whole text content of a file.
    fn read_text_file(&self, path: &str) -> Result<String, CleanboxError>;

    /// Replaces the content of a file with the given text.
    fn write_text_file(&self, path: &str, content: &str) -> Result<(), CleanboxError>;
}

/// The SHA-1 digest of a byte sequence.
pub uninterp spec fn sha1_of(data: Seq<u8>) -> Seq<u8>;

/// Relies on the `sha1` crate's `Sha1`: the digest is twenty bytes and
/// depends on the input bytes alone.
#[verifier::external_body]
fn sha1_digest(data: &[u8]) -> (r: Vec<u8>)
    ensures
        r@ == sha1_of(data@),
        r@.len() == 20,
{
    Sha1::digest(data).to_vec()
}

/// The lowercase hex digit for a value below sixteen.
pub open spec fn hex_digit(n: int) -> char {
    if n < 10 {
        (48 + n) as char
    } else {
        (87 + n) as char
    }
}

/// The lowercase-hex rendering of a byte sequence, two digits a byte.
pub open spec fn hex_of(data: Seq<u8>) -> Seq<char>
    decreases data.len(),
{
    if data.len() == 0 {
        Seq::empty()
    } else {
        hex_of(data.drop_last()) + seq![
            hex_digit(data.last() as int / 16),
            hex_digit(data.last() as int % 16),
        ]
    }
}

/// Renders bytes as lowercase hex, two digits a byte.
pub fn to_hex(data: &Vec<u8>) -> (r: Vec<char>)
    ensures
        r@ == hex_of(data@),
        r@.len() == 2 * data@.len(),
{
    let n = data.len();
    let mut r: Vec<char> = Vec::new();
    let mut i: usize = 0;
    proof {
        lemma_hex_of_len(data@.take(0));
    }
    while i < n
        invariant
            n == data@.len(),
            i <= n,
            r@ == hex_of(data@.take(i as int)),
            r@.len() == 2 * i,
        decreases n - i,
    {
        let b = data[i];
        let hi = b / 16;
        let lo = b % 16;
        r.push(if hi < 10 {
            (48 + hi) as char
        } else {
            (87 + hi) as char
        });
        r.push(if lo < 10 {
            (48 + lo) as char
        } else {
            (87 + lo) as char
        });
        proof {
            assert(data@.take(i + 1 as int).drop_last() =~= data@.take(i as int));
            assert(r@ =~= hex_of(data@.take(i as int)) + seq![
                hex_digit(data@[i as int] as int / 16),
                hex_digit(data@[i as int] as int % 16),
            ]);
        }
        i = i + 1;
    }
    proof {
        assert(data@.take(n as int) =~= data@);
    }
    r
}

/// Two hex digits for each byte.
proof fn lemma_hex_of_len(data: Seq<u8>)
    ensures
        hex_of(data).len() == 2 * data.len(),
    decreases data.len(),
{
    if data.len() > 0 {
        lemma_hex_of_len(data.drop_last());
    }
}

/// The lowercase-hex SHA-1 of a byte sequence: forty hex characters.
pub fn sha1_hex(data: &[u8]) -> (r: String)
    ensures
        r@ == hex_of(sha1_of(data@)),
        r@.len() == 40,
{
    let digest = sha1_digest(data);
    let hex = to_hex(&digest);
    string_from_chars(&hex)
}

/// Derives duplicate-safe names: a prefix of a content hash spliced
/// into an existing file name.
pub struct FileHasher;

impl FileHasher {
    /// The first `length` characters of `hash`, or all of it when it is
    /// shorter.
    pub fn generate_hash_suffix(hash: &str, length: usize) -> (r: String)
        ensures
            r@ == hash@.take(if length <= hash@.len() {
                length as int
            } else {
                hash@.len() as int
            }),
    {
        let chars = chars_of(hash);
        let n = chars.len();
        let take = if length < n {
            length
        } else {
            n
        };
        let prefix = subvec(&chars, 0, take);
        proof {
            assert(chars@.subrange(0, take as int) =~= hash@.take(take as int));
        }
        string_from_chars(&prefix)
    }

    /// Splices a hash suffix into a file name as `stem_suffix.ext`.
    /// Fails when the name is empty or has no extension.
    pub fn append_hash_to_filename(original_name: &str, hash_suffix: &str) -> (r: Result<
        String,
        CleanboxError,
    >)
        ensures
            r matches Ok(n) ==> file_name_spec(original_name@).len() > 0 && has_extension_spec(
                original_name@,
            ) && n@ == stem_spec(original_name@) + seq!['_'] + hash_suffix@ + seq!['.']
                + extension_spec(original_name@),
            r is Err ==> file_name_spec(original_name@).len() == 0 || !has_extension_spec(
                original_name@,
            ),
            r matches Err(e) ==> (e matches CleanboxError::InvalidFileStem(p) && p@
                == original_name@ && file_name_spec(original_name@).len() == 0) || (
            e matches CleanboxError::InvalidFileExtension(p) && p@ == original_name@
                && file_name_spec(original_name@).len() > 0),
    {
        let chars = chars_of(original_name);
        let name = crate::pathstr::file_name_chars(&chars);
        if name.len() == 0 {
            return Err(CleanboxError::InvalidFileStem(original_name.to_owned()));
        }
        match crate::media::extension_of_name(&name) {
            Some(ext) => {
                let stem = crate::media::stem_of_name(&name);
                let mut out: Vec<char> = Vec::new();
                push_all(&mut out, &stem);
                out.push('_');
                push_all(&mut out, &chars_of(hash_suffix));
                out.push('.');
                push_all(&mut out, &ext);
                proof {
                    assert(out@ =~= stem_spec(original_name@) + seq!['_'] + hash_suffix@
                        + seq!['.'] + extension_spec(original_name@));
                }
                Ok(string_from_chars(&out))
            },
            None => Err(CleanboxError::InvalidFileExtension(original_name.to_owned())),
        }
    }
}

/// Splicing two different suffixes of one length into one name gives
/// two different names: the duplicate-safe rename cannot collide with
/// itself as long as the hash prefixes differ.
pub proof fn lemma_append_hash_injective(
    name: Seq<char>,
    suffix1: Seq<char>,
    suffix2: Seq<char>,
)
    requires
        suffix1.len() == suffix2.len(),
        suffix1 != suffix2,
    ensures
        stem_spec(name) + seq!['_'] + suffix1 + seq!['.'] + extension_spec(name) != stem_spec(
            name,
        ) + seq!['_'] + suffix2 + seq!['.'] + extension_spec(name),
{
    let a = stem_spec(name) + seq!['_'] + suffix1 + seq!['.'] + extension_spec(name);
    let b = stem_spec(name) + seq!['_'] + suffix2 + seq!['.'] + extension_spec(name);
    let base = stem_spec(name).len() as int + 1;
    assert(exists|k: int| 0 <= k < suffix1.len() && suffix1[k] != suffix2[k]) by {
        if forall|k: int| 0 <= k < suffix1.len() ==> suffix1[k] == suffix2[k] {
            assert(suffix1 =~= suffix2);
        }
    }
    let k = choose|k: int| 0 <= k < suffix1.len() && suffix1[k] != suffix2[k];
    assert(a[base + k] == suffix1[k]);
    assert(b[base + k] == suffix2[k]);
    assert(a != b) by {
        if a == b {
            assert(a[base + k] == b[base + k]);
        }
    }
}

} // verus!
