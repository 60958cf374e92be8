//! The application's identity.

use vstd::prelude::*;

verus! {

/// The Nexus application.
pub struct App;

/// The build label: the build's commit, else the CI commit, else `dev`.
pub open spec fn build_label(build_sha: Option<&str>, github_sha: Option<&str>) -> Seq<char> {
    match build_sha {
        Some(s) => s@,
        None => match github_sha {
            Some(s) => s@,
            None => "dev"@,
        },
    }
}

impl App {
    /// The version shown for the application: the package version followed
    /// by the build label in parentheses.
    pub fn app_version(pkg_version: &str, build_sha: Option<&str>, github_sha: Option<&str>) -> (r:
        String)
        ensures
            r@ == pkg_version@ + " ("@ + build_label(build_sha, github_sha) + ")"@,
    {
        let label = match build_sha {
            Some(s) => s,
            None => match github_sha {
                Some(s) => s,
                None => "dev",
            },
        };
        let mut out = String::from_str(pkg_version);
        out.append(" (");
        out.append(label);
        out.append(")");
        out
    }
}

} // verus!
