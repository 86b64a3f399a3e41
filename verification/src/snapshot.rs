//! The typed view of one engine snapshot record, and the predicates and
//! accessors the rest of the library queries it through.

use vstd::prelude::*;
use crate::errors::SproutError;
use crate::stats::{
    format_stats, packed_stats, parse_stats, spec_parse_stats, sum_stats, SnapshotStats,
    SnapshotSummary,
};
use crate::strutil::{str_eq, views_of};
use crate::tags::{
    branch_key, branch_key_str, bundle_kind, bundle_obj_tag, contains_tag, get_tag_value,
    lemma_tag_str_fields, lemma_tag_str_value_cancel, lookup_tag, make_tag, obj_key, stats_key,
    stats_key_str, tag_has_key, tag_str, tags_contain, uniq_key, uniq_key_str,
};

verus! {

/// One snapshot record, reduced to the plain values this library reads: the
/// engine's opaque content id (as hex), the hostname (always the project
/// name), the creation time in seconds, the tag set, and the per-operation
/// summary when the engine reported one.
#[derive(Clone, Debug)]
pub struct Snapshot {
    pub id: String,
    pub hostname: String,
    pub time: i64,
    pub tags: Vec<String>,
    pub summary: Option<SnapshotSummary>,
}

impl Snapshot {
    /// The record's tags, each as a sequence of characters.
    pub open spec fn tag_views(&self) -> Seq<Seq<char>> {
        views_of(self.tags@)
    }

    /// Whether the record is a bundle: its tag set holds the bundle kind tag.
    pub open spec fn spec_is_bundle(&self) -> bool {
        tags_contain(self.tag_views(), tag_str(obj_key(), bundle_kind()))
    }

    /// Whether the record carries the exact branch tag for `branch`.
    pub open spec fn spec_on_branch(&self, branch: Seq<char>) -> bool {
        tags_contain(self.tag_views(), tag_str(branch_key(), branch))
    }

    /// Whether the record belongs to the project named `name`.
    pub open spec fn spec_for_project(&self, name: Seq<char>) -> bool {
        self.hostname@ == name
    }

    /// A bundle of the given project, on any branch.
    pub open spec fn spec_is_project_bundle(&self, name: Seq<char>) -> bool {
        self.spec_is_bundle() && self.spec_for_project(name)
    }

    /// A bundle of the given project on the given branch.
    pub open spec fn spec_is_branch_bundle(&self, name: Seq<char>, branch: Seq<char>) -> bool {
        self.spec_is_bundle() && self.spec_for_project(name) && self.spec_on_branch(branch)
    }

    /// Exactly one tag of the record carries the branch key, and it names
    /// `branch`. Every bundle this library creates is tagged this way.
    pub open spec fn spec_single_branch_tag(&self, branch: Seq<char>) -> bool {
        &&& tags_contain(self.tag_views(), tag_str(branch_key(), branch))
        &&& forall|i: int|
            0 <= i < self.tag_views().len() && tag_has_key(#[trigger] self.tag_views()[i], branch_key())
                ==> self.tag_views()[i] == tag_str(branch_key(), branch)
    }

    pub fn is_bundle(&self) -> (r: bool)
        ensures
            r == self.spec_is_bundle(),
    {
        contains_tag(&self.tags, bundle_obj_tag())
    }

    pub fn on_branch(&self, branch: &str) -> (r: bool)
        ensures
            r == self.spec_on_branch(branch@),
    {
        let t = make_tag(branch_key_str(), branch);
        contains_tag(&self.tags, t.as_str())
    }

    pub fn for_project(&self, name: &str) -> (r: bool)
        ensures
            r == self.spec_for_project(name@),
    {
        str_eq(self.hostname.as_str(), name)
    }

    /// An equivalent copy of the record.
    pub fn duplicate(&self) -> (r: Snapshot)
        ensures
            snap_eq(r, *self),
    {
        let tags = self.tags.clone();
        proof {
            assert forall|i: int| 0 <= i < self.tags@.len() implies tags@[i] == self.tags@[i] by {
                assert(vstd::pervasive::cloned::<String>(self.tags@[i], tags@[i]));
            }
            assert(tags@ =~= self.tags@);
        }
        Snapshot {
            id: self.id.clone(),
            hostname: self.hostname.clone(),
            time: self.time,
            tags,
            summary: self.summary,
        }
    }

    /// The value of the tag carrying `key`, the last match winning; `NotFound`
    /// when no tag carries it.
    pub fn get_sprout_tag(snapshot: &Snapshot, key: &str) -> (r: Result<String, SproutError>)
        ensures
            match r {
                Ok(v) => lookup_tag(snapshot.tag_views(), key@) == Some(v@),
                Err(e) => lookup_tag(snapshot.tag_views(), key@) is None && e
                    == SproutError::NotFound,
            },
    {
        match get_tag_value(&snapshot.tags, key) {
            Some(v) => Ok(v),
            None => Err(SproutError::NotFound),
        }
    }

    /// The record's content branch, from its branch tag.
    pub fn get_branch(&self) -> (r: Result<String, SproutError>)
        ensures
            match r {
                Ok(v) => lookup_tag(self.tag_views(), branch_key()) == Some(v@),
                Err(e) => lookup_tag(self.tag_views(), branch_key()) is None && e
                    == SproutError::NotFound,
            },
    {
        Self::get_sprout_tag(self, branch_key_str())
    }

    /// The record's project identity hash, from its identity tag.
    pub fn get_project_identity_hash(&self) -> (r: Result<String, SproutError>)
        ensures
            match r {
                Ok(v) => lookup_tag(self.tag_views(), uniq_key()) == Some(v@),
                Err(e) => lookup_tag(self.tag_views(), uniq_key()) is None && e
                    == SproutError::NotFound,
            },
    {
        Self::get_sprout_tag(self, uniq_key_str())
    }

    /// The project name the record was taken for.
    pub fn get_project_name(&self) -> (r: String)
        ensures
            r == self.hostname,
    {
        self.hostname.clone()
    }

    /// The four packed counts of a bundle record, decoded from its statistics
    /// tag: `NotFound` when the tag is absent, `ConfigError` when its value
    /// does not parse.
    pub fn get_stats(&self) -> (r: Result<SnapshotStats, SproutError>)
        ensures
            match r {
                Ok(st) => lookup_tag(self.tag_views(), stats_key()) matches Some(v)
                    && spec_parse_stats(v) == Some(st),
                Err(e) => {
                    ||| (lookup_tag(self.tag_views(), stats_key()) is None && e
                        == SproutError::NotFound)
                    ||| (lookup_tag(self.tag_views(), stats_key()) matches Some(v)
                        && spec_parse_stats(v) is None && e == SproutError::ConfigError)
                },
            },
    {
        match get_tag_value(&self.tags, stats_key_str()) {
            None => Err(SproutError::NotFound),
            Some(v) => match parse_stats(v.as_str()) {
                Some(st) => Ok(st),
                None => Err(SproutError::ConfigError),
            },
        }
    }

    /// Files processed, zero when the engine reported no summary.
    pub fn get_total_files(&self) -> (r: u64)
        ensures
            match self.summary {
                Some(s) => r == s.total_files_processed,
                None => r == 0,
            },
    {
        match &self.summary {
            Some(s) => s.total_files_processed,
            None => 0,
        }
    }

    /// Bytes processed, zero when the engine reported no summary.
    pub fn get_total_bytes(&self) -> (r: u64)
        ensures
            match self.summary {
                Some(s) => r == s.total_bytes_processed,
                None => r == 0,
            },
    {
        match &self.summary {
            Some(s) => s.total_bytes_processed,
            None => 0,
        }
    }

    /// The packed statistics tag value for a bundle made of the two given
    /// sub-snapshots: each count the sum over both summaries.
    pub fn pack_stats(db_snapshot: &Snapshot, uploads_snapshot: &Snapshot) -> (r: Result<
        String,
        SproutError,
    >)
        requires
            db_snapshot.summary is Some,
            uploads_snapshot.summary is Some,
        ensures
            match r {
                Ok(s) => {
                    &&& sum_of_summaries(
                        db_snapshot.summary->Some_0,
                        uploads_snapshot.summary->Some_0,
                    ) matches Some(st)
                    &&& s@ == packed_stats(st)
                },
                Err(e) => sum_of_summaries(
                    db_snapshot.summary->Some_0,
                    uploads_snapshot.summary->Some_0,
                ) is None && e is EngineError,
            },
    {
        let db = match &db_snapshot.summary {
            Some(s) => *s,
            None => vstd::pervasive::unreached(),
        };
        let up = match &uploads_snapshot.summary {
            Some(s) => *s,
            None => vstd::pervasive::unreached(),
        };
        match sum_stats(&db, &up) {
            Some(st) => Ok(format_stats(&st)),
            None => Err(SproutError::EngineError("statistics counters overflow".to_owned())),
        }
    }
}

/// Records equal in every field this library reads. (`Vec` values with equal
/// views need not be equal as values, so record copies are related by this
/// equivalence rather than by `==`.)
pub open spec fn snap_eq(a: Snapshot, b: Snapshot) -> bool {
    &&& a.id == b.id
    &&& a.hostname == b.hostname
    &&& a.time == b.time
    &&& a.tags@ == b.tags@
    &&& a.summary == b.summary
}

/// The count-for-count sum of two summaries, when every count fits.
pub open spec fn sum_of_summaries(a: SnapshotSummary, b: SnapshotSummary) -> Option<SnapshotStats> {
    if a.files_new + b.files_new <= u64::MAX && a.files_changed + b.files_changed <= u64::MAX
        && a.files_unmodified + b.files_unmodified <= u64::MAX && a.data_added + b.data_added
        <= u64::MAX {
        Some(
            SnapshotStats {
                new: (a.files_new + b.files_new) as u64,
                changed: (a.files_changed + b.files_changed) as u64,
                unmodified: (a.files_unmodified + b.files_unmodified) as u64,
                data_added: (a.data_added + b.data_added) as u64,
            },
        )
    } else {
        None
    }
}

/// Branch isolation: a record whose only branch tag names `a` never satisfies
/// the branch predicate for a different branch `b`, so no query scoped to `b`
/// can return it.
pub proof fn lemma_branch_isolation(snap: Snapshot, a: Seq<char>, b: Seq<char>)
    requires
        snap.spec_single_branch_tag(a),
        a != b,
    ensures
        !snap.spec_on_branch(b),
{
    if snap.spec_on_branch(b) {
        let i = choose|i: int|
            0 <= i < snap.tag_views().len() && snap.tag_views()[i] == tag_str(branch_key(), b);
        lemma_tag_str_fields(branch_key(), b);
        assert(tag_has_key(snap.tag_views()[i], branch_key()));
        assert(snap.tag_views()[i] == tag_str(branch_key(), a));
        lemma_tag_str_value_cancel(branch_key(), a, b);
    }
}

/// The same, at the level of branch-scoped queries: such a record never
/// satisfies the predicate that `active_bundle` and the latest-for-branch
/// query filter by for a different branch, whatever the project name.
pub proof fn lemma_branch_query_isolation(
    snap: Snapshot,
    name: Seq<char>,
    a: Seq<char>,
    b: Seq<char>,
)
    requires
        snap.spec_single_branch_tag(a),
        a != b,
    ensures
        !snap.spec_is_branch_bundle(name, b),
{
    lemma_branch_isolation(snap, a, b);
}

} // verus!
