//! Bundle creation as an explicit saga: two engine backups, a merge, then a
//! best-effort cleanup of the two sub-snapshots. The engine performs each
//! action outside this crate; this module decides every request — virtual
//! paths, tag sets, parent selection, packed statistics — and tracks the
//! protocol state so steps cannot be replayed or skipped.
//!
//! The merge is not atomic with the backups: a failure after the database
//! backup leaves an orphaned sub-snapshot, which is unreachable from every
//! bundle-scoped query and therefore tolerated; a failed deletion after the
//! merge likewise leaves unreferenced leaves, never corruption.

use vstd::prelude::*;
use crate::errors::SproutError;
use crate::snapshot::{snap_eq, sum_of_summaries, Snapshot};
use crate::stats::{packed_stats, SnapshotSummary};
use crate::strutil::{str_eq, views_of};
use crate::tags::{
    branch_key, branch_key_str, bundle_kind, database_kind, db_key, db_key_str, first_lookup_tag,
    get_first_tag_value, make_tag, obj_key, obj_key_str, stats_key, stats_key_str, tag_str,
    uniq_key, uniq_key_str, uploads_kind,
};
use crate::select::get_latest_snapshot_for_branch;

verus! {

/// The fixed virtual path the database export is backed up under.
pub fn database_virtual_path() -> (r: &'static str)
    ensures
        r@ == "/.sprout/database/database.sql"@,
{
    "/.sprout/database/database.sql"
}

/// The fixed virtual path the uploads tree is backed up under.
pub fn uploads_virtual_path() -> (r: &'static str)
    ensures
        r@ == "/.sprout/uploads"@,
{
    "/.sprout/uploads"
}

/// The identity value recorded in tags: the hash, or a placeholder for a
/// project that is not under version control.
pub open spec fn spec_identity_or_none(identity: Option<String>) -> Seq<char> {
    match identity {
        Some(h) => h@,
        None => "_none_"@,
    }
}

/// The tag set of a database sub-snapshot.
pub open spec fn spec_db_tags(identity: Seq<char>, branch: Seq<char>) -> Seq<Seq<char>> {
    seq![
        tag_str(obj_key(), database_kind()),
        tag_str(uniq_key(), identity),
        tag_str(branch_key(), branch),
    ]
}

/// The tag set of an uploads sub-snapshot, cross-referencing its database
/// sub-snapshot by id.
pub open spec fn spec_uploads_tags(db_id: Seq<char>, identity: Seq<char>, branch: Seq<char>) -> Seq<
    Seq<char>,
> {
    seq![
        tag_str(obj_key(), uploads_kind()),
        tag_str(db_key(), db_id),
        tag_str(uniq_key(), identity),
        tag_str(branch_key(), branch),
    ]
}

/// The tag set of a merged bundle, carrying the packed statistics.
pub open spec fn spec_bundle_tags(identity: Seq<char>, branch: Seq<char>, packed: Seq<char>) -> Seq<
    Seq<char>,
> {
    seq![
        tag_str(obj_key(), bundle_kind()),
        tag_str(uniq_key(), identity),
        tag_str(branch_key(), branch),
        tag_str(stats_key(), packed),
    ]
}

/// One backup request for the engine: what to store, under which virtual
/// path and hostname, with which tags, diffed against which parent. A `None`
/// parent lets the engine pick automatically.
pub struct BackupSpec {
    pub virtual_path: String,
    pub host: String,
    pub tags: Vec<String>,
    pub parent: Option<String>,
}

/// One merge request for the engine: the two sub-snapshot ids to combine
/// (most recently modified node winning per overlapping path), and the tag
/// set of the resulting bundle.
pub struct MergeSpec {
    pub ids: Vec<String>,
    pub host: String,
    pub tags: Vec<String>,
}

/// The protocol position of one bundle creation.
pub enum BundleState {
    AwaitingDatabase,
    AwaitingUploads { db: Snapshot },
    AwaitingMerge { db: Snapshot, uploads: Snapshot },
    AwaitingCleanup { bundle: Snapshot },
    Complete { bundle: Snapshot },
}

/// One bundle creation in progress, for one project and branch.
pub struct BundleSaga {
    pub name: String,
    pub branch: String,
    pub identity: Option<String>,
    pub automatic_parent: bool,
    pub last_snapshot: Option<String>,
    pub state: BundleState,
}

impl BundleSaga {
    /// The identity value this saga records in every tag set.
    pub open spec fn spec_identity_tag_value(&self) -> Seq<char> {
        spec_identity_or_none(self.identity)
    }

    /// The settings of `other`, unchanged.
    pub open spec fn same_settings(&self, other: &BundleSaga) -> bool {
        &&& self.name == other.name
        &&& self.branch == other.branch
        &&& self.identity == other.identity
        &&& self.automatic_parent == other.automatic_parent
        &&& self.last_snapshot == other.last_snapshot
    }

    /// Begin a bundle creation: the saga awaits the database backup, whose
    /// request carries the database tags and — unless the parent is chosen
    /// automatically — the project's last recorded bundle id as parent.
    pub fn start(
        name: String,
        branch: String,
        identity: Option<String>,
        automatic_parent: bool,
        last_snapshot: Option<String>,
    ) -> (r: (BundleSaga, BackupSpec))
        ensures
            r.0.name == name,
            r.0.branch == branch,
            r.0.identity == identity,
            r.0.automatic_parent == automatic_parent,
            r.0.last_snapshot == last_snapshot,
            r.0.state is AwaitingDatabase,
            r.1.virtual_path@ == "/.sprout/database/database.sql"@,
            r.1.host@ == name@,
            views_of(r.1.tags@) == spec_db_tags(spec_identity_or_none(identity), branch@),
            match (automatic_parent, last_snapshot) {
                (false, Some(id)) => r.1.parent matches Some(p) && p@ == id@,
                _ => r.1.parent is None,
            },
    {
        let identity_value = match &identity {
            Some(h) => h.clone(),
            None => "_none_".to_owned(),
        };
        let mut tags: Vec<String> = Vec::new();
        tags.push(make_tag(obj_key_str(), "database"));
        tags.push(make_tag(uniq_key_str(), identity_value.as_str()));
        tags.push(make_tag(branch_key_str(), branch.as_str()));
        proof {
            assert(views_of(tags@) =~~= spec_db_tags(spec_identity_or_none(identity), branch@));
        }
        let parent: Option<String> = if !automatic_parent {
            match &last_snapshot {
                Some(id) => Some(id.clone()),
                None => None,
            }
        } else {
            None
        };
        let spec = BackupSpec {
            virtual_path: database_virtual_path().to_owned(),
            host: name.clone(),
            tags,
            parent,
        };
        let saga = BundleSaga {
            name,
            branch,
            identity,
            automatic_parent,
            last_snapshot,
            state: BundleState::AwaitingDatabase,
        };
        (saga, spec)
    }

    /// The database backup succeeded: request the uploads backup. Its tags
    /// cross-reference the fresh database snapshot; its parent is the
    /// previously recorded bundle when one was recorded, resolved by the
    /// caller against the repository — an unresolved id falls back to the
    /// engine's automatic parent selection rather than failing.
    pub fn database_backed_up(self, db: Snapshot, prior_bundle: Option<Snapshot>) -> (r: (
        BundleSaga,
        BackupSpec,
    ))
        requires
            self.state is AwaitingDatabase,
            db.summary is Some,
        ensures
            r.0.same_settings(&self),
            r.0.state matches BundleState::AwaitingUploads { db: d } && d == db,
            r.1.virtual_path@ == "/.sprout/uploads"@,
            r.1.host@ == self.name@,
            views_of(r.1.tags@) == spec_uploads_tags(
                db.id@,
                self.spec_identity_tag_value(),
                self.branch@,
            ),
            match (self.automatic_parent || self.last_snapshot is None, prior_bundle) {
                (false, Some(p)) => r.1.parent matches Some(q) && q@ == p.id@,
                _ => r.1.parent is None,
            },
    {
        let identity_value = match &self.identity {
            Some(h) => h.clone(),
            None => "_none_".to_owned(),
        };
        let mut tags: Vec<String> = Vec::new();
        tags.push(make_tag(obj_key_str(), "uploads"));
        tags.push(make_tag(db_key_str(), db.id.as_str()));
        tags.push(make_tag(uniq_key_str(), identity_value.as_str()));
        tags.push(make_tag(branch_key_str(), self.branch.as_str()));
        proof {
            assert(views_of(tags@) =~~= spec_uploads_tags(
                db.id@,
                self.spec_identity_tag_value(),
                self.branch@,
            ));
        }
        let parent: Option<String> = if !self.automatic_parent && self.last_snapshot.is_some() {
            match &prior_bundle {
                Some(p) => Some(p.id.clone()),
                None => None,
            }
        } else {
            None
        };
        let spec = BackupSpec {
            virtual_path: uploads_virtual_path().to_owned(),
            host: self.name.clone(),
            tags,
            parent,
        };
        let saga = BundleSaga {
            name: self.name,
            branch: self.branch,
            identity: self.identity,
            automatic_parent: self.automatic_parent,
            last_snapshot: self.last_snapshot,
            state: BundleState::AwaitingUploads { db },
        };
        (saga, spec)
    }

    /// The uploads backup succeeded: request the merge. The bundle's tags
    /// carry the packed statistics — each count the sum over the two
    /// sub-snapshots' summaries — so the bundle stays self-describing after
    /// the sub-snapshots are deleted. Fails only if a summed count overflows.
    pub fn uploads_backed_up(self, uploads: Snapshot) -> (r: Result<
        (BundleSaga, MergeSpec),
        SproutError,
    >)
        requires
            self.state matches BundleState::AwaitingUploads { db } && db.summary is Some,
            uploads.summary is Some,
        ensures
            match self.state {
                BundleState::AwaitingUploads { db } => match r {
                    Ok((saga, m)) => {
                        &&& sum_of_summaries(db.summary->Some_0, uploads.summary->Some_0)
                            matches Some(st)
                        &&& views_of(m.tags@) == spec_bundle_tags(
                            self.spec_identity_tag_value(),
                            self.branch@,
                            packed_stats(st),
                        )
                        &&& m.host@ == self.name@
                        &&& views_of(m.ids@) == seq![db.id@, uploads.id@]
                        &&& saga.same_settings(&self)
                        &&& saga.state matches BundleState::AwaitingMerge {
                            db: d,
                            uploads: u,
                        } && d == db && u == uploads
                    },
                    Err(e) => e is EngineError && sum_of_summaries(
                        db.summary->Some_0,
                        uploads.summary->Some_0,
                    ) is None,
                },
                _ => false,
            },
    {
        let db = match self.state {
            BundleState::AwaitingUploads { db } => db,
            _ => vstd::pervasive::unreached(),
        };
        let packed = match Snapshot::pack_stats(&db, &uploads) {
            Ok(packed) => packed,
            Err(e) => {
                return Err(e);
            },
        };
        let identity_value = match &self.identity {
            Some(h) => h.clone(),
            None => "_none_".to_owned(),
        };
        let mut tags: Vec<String> = Vec::new();
        tags.push(make_tag(obj_key_str(), "bundle"));
        tags.push(make_tag(uniq_key_str(), identity_value.as_str()));
        tags.push(make_tag(branch_key_str(), self.branch.as_str()));
        tags.push(make_tag(stats_key_str(), packed.as_str()));
        let mut ids: Vec<String> = Vec::new();
        ids.push(db.id.clone());
        ids.push(uploads.id.clone());
        let ghost st = sum_of_summaries(db.summary->Some_0, uploads.summary->Some_0)->Some_0;
        proof {
            assert(views_of(tags@) =~~= spec_bundle_tags(
                self.spec_identity_tag_value(),
                self.branch@,
                packed_stats(st),
            ));
            assert(views_of(ids@) =~~= seq![db.id@, uploads.id@]);
        }
        let m = MergeSpec { ids, host: self.name.clone(), tags };
        let saga = BundleSaga {
            name: self.name,
            branch: self.branch,
            identity: self.identity,
            automatic_parent: self.automatic_parent,
            last_snapshot: self.last_snapshot,
            state: BundleState::AwaitingMerge { db, uploads },
        };
        Ok((saga, m))
    }

    /// The merge succeeded: the bundle exists. Request deletion of the two
    /// sub-snapshots, which are no longer independently addressable.
    pub fn merged(self, bundle: Snapshot) -> (r: (BundleSaga, Vec<String>))
        requires
            self.state matches BundleState::AwaitingMerge { .. },
        ensures
            match self.state {
                BundleState::AwaitingMerge { db, uploads } => {
                    &&& r.0.same_settings(&self)
                    &&& r.0.state matches BundleState::AwaitingCleanup { bundle: b } && b == bundle
                    &&& views_of(r.1@) == seq![db.id@, uploads.id@]
                },
                _ => false,
            },
    {
        let (db, uploads) = match self.state {
            BundleState::AwaitingMerge { db, uploads } => (db, uploads),
            _ => vstd::pervasive::unreached(),
        };
        let mut ids: Vec<String> = Vec::new();
        ids.push(db.id);
        ids.push(uploads.id);
        proof {
            assert(views_of(ids@) =~~= seq![
                self.state->AwaitingMerge_db.id@,
                self.state->AwaitingMerge_uploads.id@,
            ]);
        }
        let saga = BundleSaga {
            name: self.name,
            branch: self.branch,
            identity: self.identity,
            automatic_parent: self.automatic_parent,
            last_snapshot: self.last_snapshot,
            state: BundleState::AwaitingCleanup { bundle },
        };
        (saga, ids)
    }

    /// The cleanup finished. Deletion is best effort: a failure leaves two
    /// unreferenced sub-snapshots, not corruption, since the bundle is
    /// self-sufficient — so the saga completes either way with the bundle.
    pub fn cleanup_finished(self, delete_succeeded: bool) -> (r: (BundleSaga, Snapshot))
        requires
            self.state matches BundleState::AwaitingCleanup { .. },
        ensures
            match self.state {
                BundleState::AwaitingCleanup { bundle } => {
                    &&& r.0.same_settings(&self)
                    &&& r.0.state matches BundleState::Complete { bundle: b } && snap_eq(b, bundle)
                    &&& snap_eq(r.1, bundle)
                },
                _ => false,
            },
    {
        let bundle = match self.state {
            BundleState::AwaitingCleanup { bundle } => bundle,
            _ => vstd::pervasive::unreached(),
        };
        let copy = bundle.duplicate();
        let saga = BundleSaga {
            name: self.name,
            branch: self.branch,
            identity: self.identity,
            automatic_parent: self.automatic_parent,
            last_snapshot: self.last_snapshot,
            state: BundleState::Complete { bundle },
        };
        (saga, copy)
    }
}

/// The outcome of the pre-flight identity check.
#[derive(Clone, Copy, Debug, PartialEq, Eq, Structural)]
pub enum IdentityStatus {
    /// The branch's newest bundle carries this working copy's identity.
    Verified,
    /// The branch has no bundle yet.
    NewBranch,
    /// The working copy has no identity (not under version control).
    Untracked,
}

/// The identity decision: two present, distinct identities conflict; an
/// absent remote identity means a new branch; an absent local identity is
/// tolerated with a warning.
pub open spec fn spec_identity_decision(
    remote: Option<Seq<char>>,
    local: Option<Seq<char>>,
) -> Result<IdentityStatus, SproutError> {
    match (remote, local) {
        (Some(r), Some(l)) => if r == l {
            Ok(IdentityStatus::Verified)
        } else {
            Err(SproutError::IdentityConflict)
        },
        (Some(r), None) => Ok(IdentityStatus::Untracked),
        (None, _) => Ok(IdentityStatus::NewBranch),
    }
}

/// The view of an optional string.
pub open spec fn view_opt(o: Option<String>) -> Option<Seq<char>> {
    match o {
        Some(s) => Some(s@),
        None => None,
    }
}

/// The pre-flight check before a bundle is created: refuse to proceed when
/// the branch's recorded identity differs from the working copy's. Always
/// checked before any mutating operation.
pub fn preflight_identity(remote: &Option<String>, local: &Option<String>) -> (r: Result<
    IdentityStatus,
    SproutError,
>)
    ensures
        r == spec_identity_decision(view_opt(*remote), view_opt(*local)),
{
    match (remote, local) {
        (Some(r), Some(l)) => {
            if str_eq(r.as_str(), l.as_str()) {
                Ok(IdentityStatus::Verified)
            } else {
                Err(SproutError::IdentityConflict)
            }
        },
        (Some(_), None) => Ok(IdentityStatus::Untracked),
        (None, _) => Ok(IdentityStatus::NewBranch),
    }
}

/// The identity guard: a bundle with one identity already on the branch
/// makes a creation attempt under any other identity fail, always.
pub proof fn lemma_identity_guard(h1: Seq<char>, h2: Seq<char>)
    requires
        h1 != h2,
    ensures
        spec_identity_decision(Some(h1), Some(h2)) == Err::<IdentityStatus, SproutError>(
            SproutError::IdentityConflict,
        ),
{
}

/// The identity recorded on a branch: the first identity tag of the branch's
/// most recent bundle. Nothing when the branch has no bundle, or its newest
/// bundle carries no identity tag — both mean "no identity to check".
pub fn get_latest_unique_hash(snaps: &Vec<Snapshot>, name: &str, branch: &str) -> (r: Option<
    String,
>)
    ensures
        match r {
            Some(v) => exists|i: int|
                0 <= i < snaps@.len() && (#[trigger] snaps@[i]).spec_is_branch_bundle(
                    name@,
                    branch@,
                ) && (forall|j: int|
                    0 <= j < snaps@.len() && (#[trigger] snaps@[j]).spec_is_branch_bundle(
                        name@,
                        branch@,
                    ) ==> snaps@[j].time <= snaps@[i].time) && first_lookup_tag(
                    snaps@[i].tag_views(),
                    uniq_key(),
                ) == Some(v@),
            None => {
                ||| forall|j: int|
                    0 <= j < snaps@.len() ==> !(#[trigger] snaps@[j]).spec_is_branch_bundle(
                        name@,
                        branch@,
                    )
                ||| exists|i: int|
                    0 <= i < snaps@.len() && (#[trigger] snaps@[i]).spec_is_branch_bundle(
                        name@,
                        branch@,
                    ) && first_lookup_tag(snaps@[i].tag_views(), uniq_key()) is None
            },
        },
{
    match get_latest_snapshot_for_branch(snaps, name, branch) {
        Err(_) => None,
        Ok(s) => get_first_tag_value(&s.tags, uniq_key_str()),
    }
}

/// Bundle accounting: the packed statistics a merge request carries decode
/// to exactly the sums of the two sub-snapshots' counts at creation time.
pub proof fn lemma_bundle_accounting(a: SnapshotSummary, b: SnapshotSummary)
    requires
        sum_of_summaries(a, b) is Some,
    ensures
        crate::stats::spec_parse_stats(packed_stats(sum_of_summaries(a, b)->Some_0))
            matches Some(st) && st.new == a.files_new + b.files_new && st.changed
            == a.files_changed + b.files_changed && st.unmodified == a.files_unmodified
            + b.files_unmodified && st.data_added == a.data_added + b.data_added,
{
    crate::stats::lemma_stats_round_trip(sum_of_summaries(a, b)->Some_0);
}

/// Every bundle this library creates carries exactly one branch tag: the
/// other three tags of a merge request use different keys, so the
/// branch-isolation law applies to every created bundle.
pub proof fn lemma_created_bundle_single_branch_tag(
    snap: Snapshot,
    identity: Seq<char>,
    branch: Seq<char>,
    packed: Seq<char>,
)
    requires
        views_of(snap.tags@) == spec_bundle_tags(identity, branch, packed),
    ensures
        snap.spec_single_branch_tag(branch),
{
    reveal_strlit("sprt_obj");
    reveal_strlit("sprt_uniq");
    reveal_strlit("sprt_branch");
    reveal_strlit("sprt_stats");
    let tv = snap.tag_views();
    assert(tv[2] == tag_str(branch_key(), branch));
    assert(crate::tags::tags_contain(tv, tag_str(branch_key(), branch)));
    assert forall|i: int|
        0 <= i < tv.len() && crate::tags::tag_has_key(#[trigger] tv[i], branch_key()) implies tv[i]
        == tag_str(branch_key(), branch) by {
        assert(branch_key()[5] == 'b');
        if i == 0 {
            assert(tv[0][5] == 'o');
            assert(tv[0].subrange(0, branch_key().len() as int)[5] == tv[0][5]);
        } else if i == 1 {
            assert(tv[1][5] == 'u');
            assert(tv[1].subrange(0, branch_key().len() as int)[5] == tv[1][5]);
        } else if i == 3 {
            assert(tv[3][5] == 's');
            assert(tv[3].subrange(0, branch_key().len() as int)[5] == tv[3][5]);
        }
    }
}

} // verus!
