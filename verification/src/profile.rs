//! Configurations kept as profiles in the user's configuration directory.
//!
//! The directory of the application holds `default.toml`, the base, and
//! one `<profile>.toml` for each profile. Profiles are layered in the
//! order in which they are named. A named profile without a file is an
//! error that names the missing file; it is never skipped.

use crate::env::env_view;
use crate::error::{outcome, Error, Failure};
use crate::loader::{files_view, load, loaded, SourceFile, SourceModel};
use crate::schema::{ConfigModel, FireblocksConfig};
use vstd::prelude::*;
use vstd::string::StringExecFns;

verus! {

/// `microxdg::XdgError`, carried as it comes.
#[verifier::external_type_specification]
#[verifier::external_body]
pub struct ExXdgError(microxdg::XdgError);

/// `XdgApp::new` for the application `fireblocks`, then
/// `XdgApp::app_config_file`: the path of `file` in the application's
/// directory below the user's configuration directory. Both read the
/// environment of the process, so nothing is known of the result.
#[verifier::external_body]
fn app_config_file(file: &str) -> Result<String, microxdg::XdgError> {
    microxdg::XdgApp::new("fireblocks").and_then(|app| app.app_config_file(file)).map(
        |path| path.to_string_lossy().into_owned(),
    )
}

/// The `Display` text of a `microxdg::XdgError`.
#[verifier::external_body]
fn directory_error_text(e: &microxdg::XdgError) -> String {
    e.to_string()
}

/// The name of the file that holds a profile.
pub open spec fn profile_file(profile: Seq<char>) -> Seq<char> {
    profile + ".toml"@
}

/// The content of a list of profile names.
pub open spec fn names_view(names: Seq<String>) -> Seq<Seq<char>> {
    Seq::new(names.len(), |i: int| names[i]@)
}

/// The index of the first profile at or after `from` whose file is
/// missing: not among those found, or found unreadable. The number of
/// profiles when none is missing.
pub open spec fn first_missing(profiles: Seq<Seq<char>>, found: Seq<SourceModel>, from: int) -> int
    decreases profiles.len() - from,
{
    if from >= profiles.len() {
        profiles.len() as int
    } else if from >= 0 && (from >= found.len() || found[from].text is None) {
        from
    } else {
        first_missing(profiles, found, from + 1)
    }
}

/// The configuration of a list of profiles, given the default document
/// and what was found at the place of each profile: the first missing
/// profile is an error; with none missing the default is the base and the
/// profiles are its overrides, in order.
pub open spec fn profiled(
    profiles: Seq<Seq<char>>,
    default: SourceModel,
    found: Seq<SourceModel>,
    env: Seq<(Seq<char>, Seq<char>)>,
) -> Result<ConfigModel, Failure> {
    let missing = first_missing(profiles, found, 0);
    if missing < profiles.len() {
        Err(Failure::ProfileConfigNotFound(profile_file(profiles[missing])))
    } else {
        loaded(default, found.take(profiles.len() as int), env)
    }
}

/// The name of the file that holds `profile`.
pub fn profile_file_name(profile: &str) -> (r: String)
    ensures
        r@ == profile_file(profile@),
{
    String::from_str(profile).concat(".toml")
}

/// The names of the files to look for: `default.toml` first, then the
/// file of each profile, in order.
pub open spec fn profile_files(profiles: Seq<Seq<char>>) -> Seq<Seq<char>> {
    seq!["default.toml"@] + Seq::new(profiles.len(), |i: int| profile_file(profiles[i]))
}

/// The names of the files to look for: `default.toml` first, then the
/// file of each profile, in order.
pub fn profile_file_names(profiles: &Vec<String>) -> (r: Vec<String>)
    ensures
        names_view(r@) == profile_files(names_view(profiles@)),
        r.len() == profiles.len() + 1,
{
    let mut names: Vec<String> = Vec::new();
    names.push("default.toml".to_owned());
    let mut i: usize = 0;
    while i < profiles.len()
        invariant
            i <= profiles.len(),
            names.len() == i + 1,
            names@[0]@ == "default.toml"@,
            forall|j: int|
                0 <= j < i ==> (#[trigger] names@[j + 1])@ == profile_file(profiles@[j]@),
        decreases profiles.len() - i,
    {
        names.push(profile_file_name(profiles[i].as_str()));
        i += 1;
    }
    assert forall|j: int| 0 <= j < names.len() implies names_view(names@)[j] == profile_files(
        names_view(profiles@),
    )[j] by {
        if j > 0 {
            assert(names@[(j - 1) + 1]@ == profile_file(profiles@[j - 1]@));
        }
    }
    assert(names_view(names@) =~= profile_files(names_view(profiles@)));
    names
}

/// Where the documents of `profiles` lie: for each name of
/// [`profile_file_names`], in order, its path in the application's
/// directory below the user's configuration directory.
///
/// The paths are those that the environment gives at the time of the
/// call. Fails when the configuration directory cannot be determined.
pub fn profile_locations(profiles: &Vec<String>) -> (r: Result<Vec<String>, Error>)
    ensures
        r matches Ok(paths) ==> paths.len() == profiles.len() + 1,
        r matches Err(e) ==> e@ == Failure::XdgError,
{
    let names = profile_file_names(profiles);
    let mut paths: Vec<String> = Vec::new();
    let mut i: usize = 0;
    while i < names.len()
        invariant
            i <= names.len(),
            names.len() == profiles.len() + 1,
            paths.len() == i,
        decreases names.len() - i,
    {
        match app_config_file(names[i].as_str()) {
            Ok(path) => paths.push(path),
            Err(e) => {
                return Err(Error::XdgError(directory_error_text(&e)));
            },
        }
        i += 1;
    }
    Ok(paths)
}

impl FireblocksConfig {
    /// Loads the default document of the configuration directory.
    pub fn init(default: &SourceFile, env: &Vec<(String, String)>) -> (r: Result<
        FireblocksConfig,
        Error,
    >)
        ensures
            outcome(r) == loaded(default@, Seq::empty(), env_view(env@)),
    {
        let none: Vec<SourceFile> = Vec::new();
        assert(files_view(none@).take(0) =~= Seq::empty());
        load(default, &none, 0, env)
    }

    /// Loads the default document with the documents of `profiles`
    /// layered on it, in order.
    ///
    /// `found` holds what lies at the place of each profile, in the order
    /// of `profiles`.
    pub fn init_with_profiles(
        profiles: &Vec<String>,
        default: &SourceFile,
        found: &Vec<SourceFile>,
        env: &Vec<(String, String)>,
    ) -> (r: Result<FireblocksConfig, Error>)
        ensures
            outcome(r) == profiled(
                names_view(profiles@),
                default@,
                files_view(found@),
                env_view(env@),
            ),
    {
        let mut i: usize = 0;
        while i < profiles.len()
            invariant
                i <= profiles.len(),
                i <= found.len(),
                first_missing(names_view(profiles@), files_view(found@), 0) == first_missing(
                    names_view(profiles@),
                    files_view(found@),
                    i as int,
                ),
            decreases profiles.len() - i,
        {
            if i >= found.len() || found[i].text.is_none() {
                return Err(Error::ProfileConfigNotFound(profile_file_name(profiles[i].as_str())));
            }
            i += 1;
        }
        load(default, found, profiles.len(), env)
    }
}

} // verus!
