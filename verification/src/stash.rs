//! The stash: a second repository rooted at a fixed local path and keyed by
//! an independently generated secret, used for pre-destructive safety
//! backups. It reuses the bundling machinery verbatim, always with automatic
//! parent selection.

use vstd::prelude::*;
use passwords::PasswordGenerator;
use crate::bundle::{spec_db_tags, spec_identity_or_none, BackupSpec, BundleSaga};
use crate::project::Project;
use crate::strutil::views_of;

verus! {

/// The local stash repository, at its fixed path under the tool home.
pub struct Stash {
    pub path: String,
}

impl Stash {
    pub fn new(path: String) -> (r: Stash)
        ensures
            r.path == path,
    {
        Stash { path }
    }

    /// Begin stashing a project: a bundle creation on the project's branch
    /// with automatic parent selection — the stash keeps no linear history.
    pub fn stash(&self, project: &Project) -> (r: (BundleSaga, BackupSpec))
        ensures
            r.0.name == project.config.name,
            r.0.branch == project.config.branch,
            r.0.identity == project.unique_hash,
            r.0.automatic_parent == true,
            r.0.state is AwaitingDatabase,
            r.1.virtual_path@ == "/.sprout/database/database.sql"@,
            r.1.host@ == project.config.name@,
            views_of(r.1.tags@) == spec_db_tags(
                spec_identity_or_none(project.unique_hash),
                project.config.branch@,
            ),
            r.1.parent is None,
    {
        let identity: Option<String> = match &project.unique_hash {
            Some(h) => Some(h.clone()),
            None => None,
        };
        BundleSaga::start(
            project.config.name.clone(),
            project.config.branch.clone(),
            identity,
            true,
            None,
        )
    }
}

/// A fresh stash secret, generated once when the stash is first created and
/// kept in the tool configuration.
///
/// Relies on passwords::PasswordGenerator::generate_one: with a nonzero
/// length and at least one character class enabled it returns a password of
/// exactly the requested length, drawn from the enabled classes; with this
/// fixed configuration (length 32, digits and both letter cases, strict) it
/// never fails.
#[verifier::external_body]
pub fn generate_stash_key() -> (r: String)
    ensures
        r@.len() == 32,
{
    let pg = PasswordGenerator {
        length: 32,
        numbers: true,
        lowercase_letters: true,
        uppercase_letters: true,
        symbols: false,
        spaces: false,
        exclude_similar_characters: false,
        strict: true,
    };
    pg.generate_one().unwrap()
}

} // verus!
