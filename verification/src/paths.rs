//! The fixed per-user file locations: a `.tasks` directory under the
//! home directory, holding the state file, the configuration file and
//! the completion log. Only the home directory itself comes from
//! outside; the joins are verified character for character.

use vstd::prelude::*;

verus! {

/// Why a file location could not be determined.
#[derive(Debug)]
pub enum PathError {
    /// No home directory could be found for the current user.
    NoHomeDir,
}

impl PathError {
    /// The error as a human-readable line.
    pub fn message(&self) -> (r: String)
        ensures
            r@ == "Could not determine home directory"@,
    {
        String::from_str("Could not determine home directory")
    }
}

/// The tasks directory under a home directory.
pub open spec fn tasks_dir_text(home: Seq<char>) -> Seq<char> {
    home + "/.tasks"@
}

/// The state file in the tasks directory.
pub open spec fn state_file_text(home: Seq<char>) -> Seq<char> {
    tasks_dir_text(home) + "/state.json"@
}

/// The configuration file in the tasks directory.
pub open spec fn config_file_text(home: Seq<char>) -> Seq<char> {
    tasks_dir_text(home) + "/config.json"@
}

/// The completion log in the tasks directory.
pub open spec fn done_file_text(home: Seq<char>) -> Seq<char> {
    tasks_dir_text(home) + "/done.md"@
}

/// Where a corrupted state file is set aside: the same path with the
/// `.corrupted` suffix, overwriting any earlier one.
pub fn corrupted_file_name(state_path: &str) -> (r: String)
    ensures
        r@ == state_path@ + ".corrupted"@,
{
    let mut out: Vec<char> = crate::chars::str_chars(state_path);
    crate::chars::push_str_chars(&mut out, ".corrupted");
    crate::chars::chars_to_string(&out)
}

/// Relies on `dirs::home_dir`: the current user's home directory, when
/// the platform reports one whose path is well-formed text.
#[verifier::external_body]
fn home_dir_string() -> (r: Option<String>) {
    dirs::home_dir().and_then(|p| p.to_str().map(|s| s.to_string()))
}

/// The tasks directory under the given home directory.
pub fn tasks_dir_of(home: &str) -> (r: String)
    ensures
        r@ == tasks_dir_text(home@),
{
    let mut out: Vec<char> = crate::chars::str_chars(home);
    crate::chars::push_str_chars(&mut out, "/.tasks");
    crate::chars::chars_to_string(&out)
}

/// The tasks directory for the current user, if a home directory is
/// known.
pub fn get_tasks_dir() -> (r: Result<String, PathError>)
    ensures
        r matches Ok(p) ==> exists|h: Seq<char>| p@ == tasks_dir_text(h),
        r matches Err(e) ==> e is NoHomeDir,
{
    match home_dir_string() {
        Some(h) => {
            let p = tasks_dir_of(h.as_str());
            proof {
                assert(p@ == tasks_dir_text(h@));
            }
            Ok(p)
        },
        None => Err(PathError::NoHomeDir),
    }
}

/// The state file for the current user, if a home directory is known.
pub fn get_state_file() -> (r: Result<String, PathError>)
    ensures
        r matches Ok(p) ==> exists|h: Seq<char>| p@ == state_file_text(h),
        r matches Err(e) ==> e is NoHomeDir,
{
    match home_dir_string() {
        Some(h) => {
            let mut out: Vec<char> = crate::chars::str_chars(h.as_str());
            crate::chars::push_str_chars(&mut out, "/.tasks");
            crate::chars::push_str_chars(&mut out, "/state.json");
            let p = crate::chars::chars_to_string(&out);
            proof {
                assert(p@ == state_file_text(h@));
            }
            Ok(p)
        },
        None => Err(PathError::NoHomeDir),
    }
}

/// The configuration file for the current user, if a home directory is
/// known.
pub fn get_config_file() -> (r: Result<String, PathError>)
    ensures
        r matches Ok(p) ==> exists|h: Seq<char>| p@ == config_file_text(h),
        r matches Err(e) ==> e is NoHomeDir,
{
    match home_dir_string() {
        Some(h) => {
            let mut out: Vec<char> = crate::chars::str_chars(h.as_str());
            crate::chars::push_str_chars(&mut out, "/.tasks");
            crate::chars::push_str_chars(&mut out, "/config.json");
            let p = crate::chars::chars_to_string(&out);
            proof {
                assert(p@ == config_file_text(h@));
            }
            Ok(p)
        },
        None => Err(PathError::NoHomeDir),
    }
}

/// The completion log for the current user, if a home directory is
/// known.
pub fn get_done_file() -> (r: Result<String, PathError>)
    ensures
        r matches Ok(p) ==> exists|h: Seq<char>| p@ == done_file_text(h),
        r matches Err(e) ==> e is NoHomeDir,
{
    match home_dir_string() {
        Some(h) => {
            let mut out: Vec<char> = crate::chars::str_chars(h.as_str());
            crate::chars::push_str_chars(&mut out, "/.tasks");
            crate::chars::push_str_chars(&mut out, "/done.md");
            let p = crate::chars::chars_to_string(&out);
            proof {
                assert(p@ == done_file_text(h@));
            }
            Ok(p)
        },
        None => Err(PathError::NoHomeDir),
    }
}

} // verus!
