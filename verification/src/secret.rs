//! Resolving the secret key of a configuration.
//!
//! The key is the inline secret when there is one. Otherwise it lies in
//! the file at the secret path, which is decrypted first when its name
//! ends in the marker of an encrypted file. This module decides where the
//! key comes from and what a failed load means; reading and decrypting the
//! file is the caller's part.

use crate::error::{outcome, Error, Failure};
use crate::schema::{ConfigModel, FireblocksConfig};
use crate::text::{chars_of, lower, lowercase, same_text};
use vstd::prelude::*;
use vstd::string::{StrSliceExecFns, StringExecFns};
use vstd::utf8::encode_utf8;

verus! {

/// `dirs::home_dir`: the home directory of the current user, as the
/// environment of the process gives it. Nothing is known of the result.
#[verifier::external_body]
fn home_directory() -> Option<String> {
    dirs::home_dir().map(|home| home.to_string_lossy().into_owned())
}

/// The index of the first occurrence of `c` in `s` at or after `from`, or
/// the length of `s` when there is none.
pub open spec fn first_at(s: Seq<char>, c: char, from: int) -> int
    decreases s.len() - from,
{
    if from >= s.len() {
        s.len() as int
    } else if from >= 0 && s[from] == c {
        from
    } else {
        first_at(s, c, from + 1)
    }
}

/// The index of the last occurrence of `c` among the first `upto`
/// characters of `s`, or -1 when there is none.
pub open spec fn last_before(s: Seq<char>, c: char, upto: int) -> int
    decreases upto,
{
    if upto <= 0 {
        -1
    } else if upto <= s.len() && s[upto - 1] == c {
        upto - 1
    } else {
        last_before(s, c, upto - 1)
    }
}

/// Whether the path begins with `~`.
pub open spec fn is_tilde_path(path: Seq<char>) -> bool {
    path.len() > 0 && path[0] == '~'
}

/// The path with its leading `~` segment replaced by the home directory:
/// the home directory followed by what comes after that segment, from the
/// first `/` on. A path that does not begin with `~` is unchanged, and so
/// is every path when there is no home directory.
pub open spec fn expanded(path: Seq<char>, home: Option<Seq<char>>) -> Seq<char> {
    match home {
        Some(directory) => if is_tilde_path(path) {
            directory + path.skip(first_at(path, '/', 0))
        } else {
            path
        },
        None => path,
    }
}

/// The extension of the file that a path names: what follows the last `.`
/// of its last segment, unless that segment has no `.` or only begins
/// with one.
pub open spec fn extension(path: Seq<char>) -> Option<Seq<char>> {
    let start = last_before(path, '/', path.len() as int) + 1;
    let dot = last_before(path, '.', path.len() as int);
    if dot > start {
        Some(path.skip(dot + 1))
    } else {
        None
    }
}

/// Whether a path names an encrypted file: its extension is `gpg`, in any
/// case.
pub open spec fn is_encrypted(path: Seq<char>) -> bool {
    match extension(path) {
        Some(ext) => lower(ext) == "gpg"@,
        None => false,
    }
}

/// `first_at` lies between `from` and the length, skips only other
/// characters, and stops on `c`.
pub proof fn lemma_first_at(s: Seq<char>, c: char, from: int)
    requires
        0 <= from <= s.len(),
    ensures
        from <= first_at(s, c, from) <= s.len(),
    decreases s.len() - from,
{
    if from < s.len() && s[from] != c {
        lemma_first_at(s, c, from + 1);
    }
}

/// An expanded `~` path lies under the home directory: it begins with it,
/// and goes on with what followed the leading segment of the path.
pub proof fn expanded_under_home(path: Seq<char>, home: Seq<char>)
    requires
        is_tilde_path(path),
    ensures
        crate::text::begins_with(expanded(path, Some(home)), home),
        expanded(path, Some(home)).skip(home.len() as int) == path.skip(first_at(path, '/', 0)),
{
    lemma_first_at(path, '/', 0);
    let full = expanded(path, Some(home));
    assert(full.take(home.len() as int) =~= home);
    assert(full.skip(home.len() as int) =~= path.skip(first_at(path, '/', 0)));
}

/// The index of the first `c` in `chars`, or their number.
fn find_first(chars: &Vec<char>, c: char) -> (r: usize)
    ensures
        r == first_at(chars@, c, 0),
        r <= chars.len(),
{
    let mut i: usize = 0;
    while i < chars.len() && chars[i] != c
        invariant
            i <= chars.len(),
            first_at(chars@, c, 0) == first_at(chars@, c, i as int),
        decreases chars.len() - i,
    {
        i += 1;
    }
    i
}

/// One more than the index of the last `c` in `chars`, or 0 when there is
/// none.
fn find_last(chars: &Vec<char>, c: char) -> (r: usize)
    ensures
        r == last_before(chars@, c, chars.len() as int) + 1,
        r <= chars.len(),
{
    let mut i: usize = chars.len();
    while i > 0 && chars[i - 1] != c
        invariant
            i <= chars.len(),
            last_before(chars@, c, chars.len() as int) == last_before(chars@, c, i as int),
        decreases i,
    {
        i -= 1;
    }
    i
}

/// Expands a leading `~` with the given home directory.
pub fn expand_tilde_in(path: &str, home: Option<&str>) -> (r: String)
    ensures
        r@ == expanded(
            path@,
            match home {
                Some(directory) => Some(directory@),
                None => None,
            },
        ),
{
    let chars = chars_of(path);
    match home {
        Some(directory) => {
            if chars.len() > 0 && chars[0] == '~' {
                let cut = find_first(&chars, '/');
                let rest = path.substring_char(cut, chars.len());
                assert(path@.subrange(cut as int, chars.len() as int) =~= path@.skip(cut as int));
                String::from_str(directory).concat(rest)
            } else {
                path.to_owned()
            }
        },
        None => path.to_owned(),
    }
}

/// Whether `path` begins with `~`.
pub fn begins_with_tilde(path: &str) -> (r: bool)
    ensures
        r == is_tilde_path(path@),
{
    let chars = chars_of(path);
    chars.len() > 0 && chars[0] == '~'
}

/// Expands a leading `~` with the home directory of the current user.
///
/// The home directory is looked up only for a path that begins with `~`,
/// and is whatever the environment gives at the time of the call; when it
/// gives none, the path is returned unchanged.
pub fn expand_tilde(path: &str) -> (r: String)
    ensures
        exists|home: Option<Seq<char>>| r@ == #[trigger] expanded(path@, home),
        !is_tilde_path(path@) ==> r@ == path@,
{
    if !begins_with_tilde(path) {
        assert(path@ == expanded(path@, None));
        return path.to_owned();
    }
    let home = home_directory();
    match home {
        Some(directory) => {
            let r = expand_tilde_in(path, Some(directory.as_str()));
            assert(r@ == expanded(path@, Some(directory@)));
            r
        },
        None => {
            let r = expand_tilde_in(path, None);
            assert(r@ == expanded(path@, None));
            r
        },
    }
}

/// Whether `path` names an encrypted file.
pub fn names_encrypted_file(path: &str) -> (r: bool)
    ensures
        r == is_encrypted(path@),
{
    let chars = chars_of(path);
    let start = find_last(&chars, '/');
    let after_dot = find_last(&chars, '.');
    if after_dot > start && after_dot - start > 1 {
        let ext = path.substring_char(after_dot, chars.len());
        assert(path@.subrange(after_dot as int, chars.len() as int) =~= path@.skip(
            after_dot as int,
        ));
        let lowered = lowercase(ext);
        same_text(lowered.as_str(), "gpg")
    } else {
        false
    }
}

/// Where the secret key comes from.
#[derive(Debug, PartialEq, Eq)]
pub enum KeySource {
    /// The key itself: the bytes of the inline secret.
    Inline(Vec<u8>),
    /// The file whose bytes are the key.
    PlainFile(String),
    /// The file whose decrypted bytes are the key.
    EncryptedFile(String),
}

/// The content of a key source.
pub enum KeySourceModel {
    Inline(Seq<u8>),
    PlainFile(Seq<char>),
    EncryptedFile(Seq<char>),
}

impl View for KeySource {
    type V = KeySourceModel;

    open spec fn view(&self) -> KeySourceModel {
        match self {
            KeySource::Inline(bytes) => KeySourceModel::Inline(bytes@),
            KeySource::PlainFile(path) => KeySourceModel::PlainFile(path@),
            KeySource::EncryptedFile(path) => KeySourceModel::EncryptedFile(path@),
        }
    }
}

/// What became of loading the secret file.
#[derive(Debug, PartialEq, Eq)]
pub enum Loaded {
    /// The bytes of the file, decrypted where it is an encrypted file.
    Bytes(Vec<u8>),
    /// The file could not be read; the text says why.
    Unreadable(String),
    /// The decryption engine failed; the text says why.
    Undecryptable(String),
}

/// The content of a load, without the text of a cause.
pub enum LoadedModel {
    Bytes(Seq<u8>),
    Unreadable,
    Undecryptable,
}

impl View for Loaded {
    type V = LoadedModel;

    open spec fn view(&self) -> LoadedModel {
        match self {
            Loaded::Bytes(bytes) => LoadedModel::Bytes(bytes@),
            Loaded::Unreadable(_) => LoadedModel::Unreadable,
            Loaded::Undecryptable(_) => LoadedModel::Undecryptable,
        }
    }
}

/// The file source that a full path names: encrypted or plain by its
/// extension.
pub open spec fn file_source_of(full: Seq<char>) -> KeySourceModel {
    if is_encrypted(full) {
        KeySourceModel::EncryptedFile(full)
    } else {
        KeySourceModel::PlainFile(full)
    }
}

/// Where the key of a configuration comes from, in strict order: the
/// inline secret; else the file at the secret path, with a leading `~`
/// expanded, encrypted or plain by its extension; else nothing, which is a
/// missing secret.
pub open spec fn key_source_of(config: ConfigModel, home: Option<Seq<char>>) -> Result<
    KeySourceModel,
    Failure,
> {
    match config.secret {
        Some(secret) => Ok(KeySourceModel::Inline(encode_utf8(secret))),
        None => match config.secret_path {
            None => Err(Failure::MissingSecret),
            Some(path) => Ok(file_source_of(expanded(path, home))),
        },
    }
}

/// The key that a source gives once its file was loaded: the inline bytes
/// whatever was loaded, else the loaded bytes, else the failure of the
/// load, which names the file where the file could not be read.
pub open spec fn key_of(source: KeySourceModel, loaded: LoadedModel) -> Result<Seq<u8>, Failure> {
    match source {
        KeySourceModel::Inline(bytes) => Ok(bytes),
        KeySourceModel::PlainFile(path) | KeySourceModel::EncryptedFile(path) => match loaded {
            LoadedModel::Bytes(bytes) => Ok(bytes),
            LoadedModel::Unreadable => Err(Failure::IOError { path }),
            LoadedModel::Undecryptable => Err(Failure::GpgError),
        },
    }
}

/// The key of a configuration, given the home directory and what became
/// of loading the secret file.
pub open spec fn resolved(
    config: ConfigModel,
    home: Option<Seq<char>>,
    loaded: LoadedModel,
) -> Result<Seq<u8>, Failure> {
    match key_source_of(config, home) {
        Ok(source) => key_of(source, loaded),
        Err(failure) => Err(failure),
    }
}

impl KeySource {
    /// The key, given what became of loading the file of this source.
    pub fn finish(self, loaded: Loaded) -> (r: Result<Vec<u8>, Error>)
        ensures
            outcome(r) == key_of(self@, loaded@),
    {
        match self {
            KeySource::Inline(bytes) => Ok(bytes),
            KeySource::PlainFile(path) | KeySource::EncryptedFile(path) => match loaded {
                Loaded::Bytes(bytes) => Ok(bytes),
                Loaded::Unreadable(cause) => Err(Error::IOError { source: cause, path }),
                Loaded::Undecryptable(cause) => Err(Error::GpgError(cause)),
            },
        }
    }
}

/// The file source that `full` names.
fn file_source(full: String) -> (r: KeySource)
    ensures
        r@ == file_source_of(full@),
{
    if names_encrypted_file(full.as_str()) {
        KeySource::EncryptedFile(full)
    } else {
        KeySource::PlainFile(full)
    }
}

impl FireblocksConfig {
    /// Where the key comes from, with the given home directory.
    pub fn key_source_in(&self, home: Option<&str>) -> (r: Result<KeySource, Error>)
        ensures
            outcome(r) == key_source_of(
                self@,
                match home {
                    Some(directory) => Some(directory@),
                    None => None,
                },
            ),
    {
        match &self.secret {
            Some(secret) => Ok(KeySource::Inline(secret.as_str().as_bytes_vec())),
            None => match &self.secret_path {
                None => Err(Error::MissingSecret),
                Some(path) => Ok(file_source(expand_tilde_in(path.as_str(), home))),
            },
        }
    }

    /// Where the key comes from, with the home directory of the current
    /// user.
    ///
    /// The home directory is looked up only when the key lies in a file
    /// whose path begins with `~`, and is whatever the environment gives
    /// at the time of the call.
    pub fn key_source(&self) -> (r: Result<KeySource, Error>)
        ensures
            exists|home: Option<Seq<char>>| outcome(r) == #[trigger] key_source_of(self@, home),
    {
        match &self.secret {
            Some(secret) => {
                let r = Ok(KeySource::Inline(secret.as_str().as_bytes_vec()));
                assert(outcome(r) == key_source_of(self@, None));
                r
            },
            None => match &self.secret_path {
                None => {
                    let r = Err(Error::MissingSecret);
                    assert(outcome(r) == key_source_of(self@, None));
                    r
                },
                Some(path) => {
                    let full = expand_tilde(path.as_str());
                    let ghost home = choose|home: Option<Seq<char>>|
                        full@ == #[trigger] expanded(path@, home);
                    let r = Ok(file_source(full));
                    assert(outcome(r) == key_source_of(self@, home));
                    r
                },
            },
        }
    }

    /// The secret key, given what became of loading the secret file.
    ///
    /// An inline secret wins over everything: its bytes are returned
    /// whatever the secret path is and whatever was loaded. With neither
    /// a secret nor a secret path the secret is missing. Otherwise the
    /// key is what `loaded` holds for the file at the secret path, with a
    /// leading `~` expanded by the home directory of the current user.
    pub fn get_key(&self, loaded: Loaded) -> (r: Result<Vec<u8>, Error>)
        ensures
            self@.secret matches Some(secret) ==> outcome(r) == Ok::<Seq<u8>, Failure>(
                encode_utf8(secret),
            ),
            self@.secret is None && self@.secret_path is None ==> outcome(r) == Err::<
                Seq<u8>,
                Failure,
            >(Failure::MissingSecret),
            exists|home: Option<Seq<char>>| outcome(r) == #[trigger] resolved(self@, home, loaded@),
    {
        let found = self.key_source();
        let ghost home = choose|home: Option<Seq<char>>|
            outcome(found) == #[trigger] key_source_of(self@, home);
        match found {
            Ok(source) => {
                let r = source.finish(loaded);
                assert(outcome(r) == resolved(self@, home, loaded@));
                r
            },
            Err(e) => {
                let r: Result<Vec<u8>, Error> = Err(e);
                assert(outcome(r) == resolved(self@, home, loaded@));
                r
            },
        }
    }
}

} // verus!
