//! One project: its persisted descriptor, construction-time safety checks,
//! the active-bundle resolution rule, and the restore plan.

use vstd::prelude::*;
use crate::errors::SproutError;
use crate::paths::{dir_suffix, has_dir_prefix, safe_relative_path, validate_uploads_path};
use crate::reconcile::{compute_deletions, contains_seq};
use crate::select::{find_bundle_by_id, get_latest_snapshot_for_branch};
use crate::snapshot::{snap_eq, Snapshot};
use crate::strutil::{concat3, views_of};

verus! {

/// The persisted project descriptor, colocated with the working tree:
/// project name, active branch, the last-known bundle id, the uploads
/// directory relative to the project root, and the target repository label.
pub struct ProjectConfig {
    pub name: String,
    pub branch: String,
    pub snapshot: Option<String>,
    pub uploads_path: String,
    pub repo: String,
}

/// A loaded project: the descriptor plus the working directory it lives in,
/// the freshly computed identity hash, and the home URL.
pub struct Project {
    pub path: String,
    pub config: ProjectConfig,
    pub unique_hash: Option<String>,
    pub home_url: String,
}

/// A restore, computed in full before anything is touched: where to write,
/// and which stale local paths to delete first.
pub struct RestorePlan {
    pub destination: String,
    pub to_delete: Vec<String>,
}

impl Project {
    /// Load a project from its descriptor. The uploads path is checked here,
    /// before anything touches the file system: it must be relative and
    /// resolve strictly inside the project root. The home URL defaults to
    /// `https://<name>.test` until the content provider reports one.
    pub fn new(path: String, config: ProjectConfig, unique_hash: Option<String>) -> (r: Result<
        Project,
        SproutError,
    >)
        ensures
            match r {
                Ok(p) => {
                    &&& safe_relative_path(config.uploads_path@)
                    &&& p.path == path
                    &&& p.config == config
                    &&& p.unique_hash == unique_hash
                    &&& p.home_url@ == "https://"@ + config.name@ + ".test"@
                },
                Err(e) => e == SproutError::PathSafety && !safe_relative_path(
                    config.uploads_path@,
                ),
            },
    {
        if !validate_uploads_path(config.uploads_path.as_str()) {
            return Err(SproutError::PathSafety);
        }
        let home_url = concat3("https://", config.name.as_str(), ".test");
        Ok(Project { path, config, unique_hash, home_url })
    }

    /// The descriptor a fresh project starts with: branch `main`, no
    /// recorded bundle, the tool's default repository, and the uploads
    /// directory the content provider detected — relativized against the
    /// project root — or the conventional location when none was detected.
    pub fn initialise(
        path: &str,
        name: String,
        default_repo: String,
        installed: bool,
        detected_uploads_dir: Option<String>,
    ) -> (r: ProjectConfig)
        ensures
            r.name == name,
            r.branch@ == "main"@,
            r.snapshot is None,
            r.repo == default_repo,
            match detected_uploads_dir {
                Some(d) => r.uploads_path@ == if installed && has_dir_prefix(d@, path@) {
                    dir_suffix(d@, path@)
                } else {
                    "./wp-content/uploads"@
                },
                None => r.uploads_path@ == "./wp-content/uploads"@,
            },
    {
        let uploads_path: String = if installed {
            match &detected_uploads_dir {
                Some(d) => match crate::paths::strip_path_prefix(d.as_str(), path) {
                    Some(rel) => rel,
                    None => "./wp-content/uploads".to_owned(),
                },
                None => "./wp-content/uploads".to_owned(),
            }
        } else {
            "./wp-content/uploads".to_owned()
        };
        ProjectConfig { name, branch: "main".to_owned(), snapshot: None, uploads_path, repo: default_repo }
    }

    /// Record a freshly created or restored bundle: the descriptor's pointer
    /// and branch move to it; everything else stays.
    pub fn update_snapshot_id(&mut self, id: String, branch: String)
        ensures
            final(self).config.snapshot matches Some(s) && s == id,
            final(self).config.branch == branch,
            final(self).config.name == old(self).config.name,
            final(self).config.uploads_path == old(self).config.uploads_path,
            final(self).config.repo == old(self).config.repo,
            final(self).path == old(self).path,
            final(self).unique_hash == old(self).unique_hash,
            final(self).home_url == old(self).home_url,
    {
        self.config.snapshot = Some(id);
        self.config.branch = branch;
    }

    /// The active bundle: the recorded pointer resolved exactly when one is
    /// set, else the branch's most recent bundle. `NotFound` when neither
    /// names a bundle among `snaps`.
    pub fn get_active_snapshot(&self, snaps: &Vec<Snapshot>) -> (r: Result<Snapshot, SproutError>)
        ensures
            match self.config.snapshot {
                Some(id) => match r {
                    Ok(s) => {
                        &&& exists|i: int|
                            0 <= i < snaps@.len() && snap_eq(s, #[trigger] snaps@[i])
                                && snaps@[i].spec_is_bundle() && snaps@[i].id@ == id@
                        &&& s.id@ == id@
                        &&& s.spec_is_bundle()
                    },
                    Err(e) => e == SproutError::NotFound && forall|j: int|
                        0 <= j < snaps@.len() ==> !((#[trigger] snaps@[j]).spec_is_bundle()
                            && snaps@[j].id@ == id@),
                },
                None => match r {
                    Ok(s) => {
                        &&& exists|i: int|
                            0 <= i < snaps@.len() && snap_eq(s, #[trigger] snaps@[i])
                                && snaps@[i].spec_is_branch_bundle(
                                self.config.name@,
                                self.config.branch@,
                            )
                        &&& forall|j: int|
                            0 <= j < snaps@.len() && (#[trigger] snaps@[j]).spec_is_branch_bundle(
                                self.config.name@,
                                self.config.branch@,
                            ) ==> snaps@[j].time <= s.time
                    },
                    Err(e) => e == SproutError::NotFound && forall|j: int|
                        0 <= j < snaps@.len() ==> !(#[trigger] snaps@[j]).spec_is_branch_bundle(
                            self.config.name@,
                            self.config.branch@,
                        ),
                },
            },
    {
        match &self.config.snapshot {
            Some(id) => find_bundle_by_id(snaps, id.as_str()),
            None => get_latest_snapshot_for_branch(
                snaps,
                self.config.name.as_str(),
                self.config.branch.as_str(),
            ),
        }
    }

    /// Plan a restore: re-validate the uploads path — restore deletes files,
    /// so the rule is checked again at restore time — then compute the exact
    /// set of stale local paths to delete before the engine writes the
    /// target listing into the destination.
    pub fn plan_restore(&self, local_files: &Vec<String>, remote_files: &Vec<String>) -> (r: Result<
        RestorePlan,
        SproutError,
    >)
        ensures
            match r {
                Ok(plan) => {
                    &&& safe_relative_path(self.config.uploads_path@)
                    &&& plan.destination@ == self.path@ + "/"@ + self.config.uploads_path@
                    &&& forall|p: Seq<char>|
                        #[trigger] contains_seq(views_of(plan.to_delete@), p) <==> (contains_seq(
                            views_of(local_files@),
                            p,
                        ) && !contains_seq(views_of(remote_files@), p))
                    &&& forall|i: int, j: int|
                        0 <= i < j < plan.to_delete@.len() ==> plan.to_delete@[i]@
                            != plan.to_delete@[j]@
                },
                Err(e) => e == SproutError::PathSafety && !safe_relative_path(
                    self.config.uploads_path@,
                ),
            },
    {
        if !validate_uploads_path(self.config.uploads_path.as_str()) {
            return Err(SproutError::PathSafety);
        }
        let destination = concat3(self.path.as_str(), "/", self.config.uploads_path.as_str());
        let to_delete = compute_deletions(local_files, remote_files);
        Ok(RestorePlan { destination, to_delete })
    }
}

} // verus!
