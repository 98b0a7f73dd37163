//! Bundled resources: which engine binary the platform uses, and the report of
//! the start-up check that the models and the engine are present.
use vstd::prelude::*;
use std::path::PathBuf;
use crate::text::push_str;

verus! {

/// `std::path::PathBuf`, carried through unchanged.
#[verifier::external_type_specification]
#[verifier::external_body]
pub struct ExPathBuf(PathBuf);

pub open spec fn spec_pikafish_bin_name(os: Seq<char>) -> Seq<char> {
    if os == "macos"@ {
        "pikafish-macos"@
    } else if os == "linux"@ {
        "pikafish-linux"@
    } else if os == "windows"@ {
        "pikafish-windows.exe"@
    } else {
        "pikafish-unknown"@
    }
}

/// File name of the bundled Pikafish binary for the operating system `os`
/// (as named by `std::env::consts::OS`).
pub fn platform_pikafish_bin_name(os: &str) -> (s: &'static str)
    ensures
        s@ == spec_pikafish_bin_name(os@),
        s@.len() > 0,
{
    proof {
        reveal_strlit("pikafish-macos");
        reveal_strlit("pikafish-linux");
        reveal_strlit("pikafish-windows.exe");
        reveal_strlit("pikafish-unknown");
    }
    if crate::text::str_eq(os, "macos") {
        "pikafish-macos"
    } else if crate::text::str_eq(os, "linux") {
        "pikafish-linux"
    } else if crate::text::str_eq(os, "windows") {
        "pikafish-windows.exe"
    } else {
        "pikafish-unknown"
    }
}

/// Outcome of the start-up resource check.
#[derive(Debug, Clone)]
pub struct ResourceCheckReport {
    pub repo_root: Option<PathBuf>,
    /// One entry per missing file: its label and where it was looked for.
    pub missing: Vec<String>,
    /// Why the resources could not be located at all.
    pub error: Option<String>,
}

/// How a missing file is listed: `label (path)`.
pub fn missing_entry(label: &str, path_text: &str) -> (s: String)
    ensures
        s@ == label@ + " ("@ + path_text@ + ")"@,
{
    let mut s = String::new();
    push_str(&mut s, label);
    push_str(&mut s, " (");
    push_str(&mut s, path_text);
    push_str(&mut s, ")");
    s
}

impl ResourceCheckReport {
    /// The report when locating the resources failed with the message `err`.
    pub fn from_error(err: String) -> (r: Self)
        ensures
            r.repo_root is None,
            r.missing@.len() == 0,
            r.error matches Some(e) && e@ == err@,
    {
        ResourceCheckReport { repo_root: None, missing: Vec::new(), error: Some(err) }
    }

    /// Whether some file is missing.
    pub fn has_missing(&self) -> (b: bool)
        ensures
            b == (self.missing@.len() > 0),
    {
        self.missing.len() > 0
    }
}

} // verus!
