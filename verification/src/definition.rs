//! Repository definitions: the label-keyed records holding a backend
//! locator and its access credential. Reading and writing the files is the
//! caller's business; the display rule for a locator lives here.

use vstd::prelude::*;
use crate::errors::SproutError;
use crate::strutil::{assoc_value, concat2, concat3, spec_assoc_value, str_eq};

verus! {

/// A backend locator: the repository string (a local path, or a typed
/// locator such as an object store), plus free-form options.
pub struct BackendLocator {
    pub repository: Option<String>,
    pub options: Vec<(String, String)>,
}

/// One repository definition: its access credential and its locator.
pub struct RepositoryDefinition {
    pub repo_key: String,
    pub repo: BackendLocator,
}

/// An option's value, or the placeholder shown for a missing one.
pub open spec fn spec_option_or_unknown(opts: Seq<(String, String)>, key: Seq<char>) -> Seq<char> {
    match spec_assoc_value(opts, key) {
        Some(v) => v,
        None => "???"@,
    }
}

/// What `display_path` renders: the repository string; an object-store
/// locator is expanded with its region, bucket and endpoint; a missing
/// repository shows the placeholder.
pub open spec fn spec_display_path(def: RepositoryDefinition) -> Seq<char> {
    match def.repo.repository {
        None => "???"@,
        Some(name) => if name@ == "opendal:s3"@ {
            name@ + " (region: "@ + spec_option_or_unknown(def.repo.options@, "region"@)
                + ", bucket: "@ + spec_option_or_unknown(def.repo.options@, "bucket"@)
                + ", endpoint: "@ + spec_option_or_unknown(def.repo.options@, "endpoint"@) + ")"@
        } else {
            name@
        },
    }
}

fn option_or_unknown(opts: &Vec<(String, String)>, key: &str) -> (r: String)
    ensures
        r@ == spec_option_or_unknown(opts@, key@),
{
    match assoc_value(opts, key) {
        Some(v) => v,
        None => "???".to_owned(),
    }
}

impl RepositoryDefinition {
    /// Render a locator for listings; mirrors `spec_display_path`.
    pub fn display_path(repo: &RepositoryDefinition) -> (r: Result<String, SproutError>)
        ensures
            r matches Ok(s) && s@ == spec_display_path(*repo),
    {
        match &repo.repo.repository {
            None => Ok("???".to_owned()),
            Some(name) => {
                if str_eq(name.as_str(), "opendal:s3") {
                    let region = option_or_unknown(&repo.repo.options, "region");
                    let bucket = option_or_unknown(&repo.repo.options, "bucket");
                    let endpoint = option_or_unknown(&repo.repo.options, "endpoint");
                    let s1 = concat2(name.as_str(), " (region: ");
                    let s2 = concat3(s1.as_str(), region.as_str(), ", bucket: ");
                    let s3 = concat3(s2.as_str(), bucket.as_str(), ", endpoint: ");
                    let s4 = concat3(s3.as_str(), endpoint.as_str(), ")");
                    proof {
                        assert(s4@ =~= spec_display_path(*repo));
                    }
                    Ok(s4)
                } else {
                    Ok(name.clone())
                }
            },
        }
    }
}

} // verus!
