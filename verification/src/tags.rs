//! The tag grammar: colon-delimited `key:value` strings, the closed key
//! vocabulary, and verified lookup with last-match-wins semantics (which
//! tolerates duplicate keys left behind by merges).

use vstd::prelude::*;
use vstd::string::StrSliceExecFns;
use crate::strutil::{concat3, has_prefix, str_eq, views_of};

verus! {

/// The encoded form of a `key:value` tag.
pub open spec fn tag_str(key: Seq<char>, value: Seq<char>) -> Seq<char> {
    key + seq![':'] + value
}

/// Whether `tag` carries `key`: it starts with `key` followed by a colon.
pub open spec fn tag_has_key(tag: Seq<char>, key: Seq<char>) -> bool {
    tag.len() > key.len() && tag.subrange(0, key.len() as int) == key && tag[key.len() as int]
        == ':'
}

/// The value part of a tag carrying `key`.
pub open spec fn tag_value(tag: Seq<char>, key: Seq<char>) -> Seq<char> {
    tag.subrange(key.len() as int + 1, tag.len() as int)
}

pub proof fn lemma_tag_str_fields(key: Seq<char>, value: Seq<char>)
    ensures
        tag_has_key(tag_str(key, value), key),
        tag_value(tag_str(key, value), key) == value,
{
    let tag = tag_str(key, value);
    assert(tag.subrange(0, key.len() as int) =~= key);
    assert(tag[key.len() as int] == ':');
    assert(tag.subrange(key.len() as int + 1, tag.len() as int) =~= value);
}

/// Two tags that encode the same key carry the same value only if equal.
pub proof fn lemma_tag_str_value_cancel(key: Seq<char>, a: Seq<char>, b: Seq<char>)
    requires
        tag_str(key, a) == tag_str(key, b),
    ensures
        a == b,
{
    lemma_tag_str_fields(key, a);
    lemma_tag_str_fields(key, b);
    assert(tag_value(tag_str(key, a), key) == tag_value(tag_str(key, b), key));
}

/// Encode a tag.
pub fn make_tag(key: &str, value: &str) -> (r: String)
    ensures
        r@ == tag_str(key@, value@),
{
    proof {
        reveal_strlit(":");
        assert(":"@ =~= seq![':']);
    }
    let r = concat3(key, ":", value);
    proof {
        assert(r@ =~= tag_str(key@, value@));
    }
    r
}

/// Whether `tag` carries `key`.
pub fn tag_matches_key(tag: &str, key: &str) -> (r: bool)
    ensures
        r == tag_has_key(tag@, key@),
{
    let tag_len = tag.unicode_len();
    let key_len = key.unicode_len();
    if tag_len <= key_len {
        return false;
    }
    if !has_prefix(tag, key) {
        return false;
    }
    if tag.get_char(key_len) != ':' {
        return false;
    }
    true
}

/// The value of a tag known to carry `key`.
pub fn tag_value_of(tag: &str, key: &str) -> (r: String)
    requires
        tag_has_key(tag@, key@),
    ensures
        r@ == tag_value(tag@, key@),
{
    let tag_len = tag.unicode_len();
    let key_len = key.unicode_len();
    tag.substring_char(key_len + 1, tag_len).to_owned()
}

/// Tag lookup, last match winning.
pub open spec fn lookup_tag(tags: Seq<Seq<char>>, key: Seq<char>) -> Option<Seq<char>>
    decreases tags.len(),
{
    if tags.len() == 0 {
        None
    } else if tag_has_key(tags.last(), key) {
        Some(tag_value(tags.last(), key))
    } else {
        lookup_tag(tags.drop_last(), key)
    }
}

/// Tag lookup, first match winning.
pub open spec fn first_lookup_tag(tags: Seq<Seq<char>>, key: Seq<char>) -> Option<Seq<char>>
    decreases tags.len(),
{
    if tags.len() == 0 {
        None
    } else if tag_has_key(tags.first(), key) {
        Some(tag_value(tags.first(), key))
    } else {
        first_lookup_tag(tags.drop_first(), key)
    }
}

/// Find the value for `key`, the last matching tag winning.
pub fn get_tag_value(tags: &Vec<String>, key: &str) -> (r: Option<String>)
    ensures
        match r {
            Some(v) => lookup_tag(views_of(tags@), key@) == Some(v@),
            None => lookup_tag(views_of(tags@), key@) is None,
        },
{
    let ghost all = views_of(tags@);
    let mut i: usize = tags.len();
    proof {
        assert(all.take(tags@.len() as int) =~= all);
    }
    while i > 0
        invariant
            i <= tags@.len(),
            all == views_of(tags@),
            lookup_tag(all, key@) == lookup_tag(all.take(i as int), key@),
        decreases i,
    {
        i = i - 1;
        proof {
            assert(all.take(i + 1).drop_last() =~= all.take(i as int));
            assert(all.take(i + 1).last() == all[i as int]);
            assert(all[i as int] == tags@[i as int]@);
        }
        if tag_matches_key(tags[i].as_str(), key) {
            return Some(tag_value_of(tags[i].as_str(), key));
        }
    }
    proof {
        assert(all.take(0) =~= Seq::<Seq<char>>::empty());
    }
    None
}

/// Find the value for `key`, the first matching tag winning.
pub fn get_first_tag_value(tags: &Vec<String>, key: &str) -> (r: Option<String>)
    ensures
        match r {
            Some(v) => first_lookup_tag(views_of(tags@), key@) == Some(v@),
            None => first_lookup_tag(views_of(tags@), key@) is None,
        },
{
    let ghost all = views_of(tags@);
    let mut i: usize = 0;
    proof {
        assert(all.skip(0) =~= all);
    }
    while i < tags.len()
        invariant
            i <= tags@.len(),
            all == views_of(tags@),
            first_lookup_tag(all, key@) == first_lookup_tag(all.skip(i as int), key@),
        decreases tags@.len() - i,
    {
        proof {
            assert(all.skip(i as int).first() == all[i as int]);
            assert(all.skip(i as int).drop_first() =~= all.skip(i + 1));
            assert(all[i as int] == tags@[i as int]@);
        }
        if tag_matches_key(tags[i].as_str(), key) {
            return Some(tag_value_of(tags[i].as_str(), key));
        }
        i += 1;
    }
    None
}

/// Whether some tag equals `t` exactly.
pub open spec fn tags_contain(tags: Seq<Seq<char>>, t: Seq<char>) -> bool {
    exists|i: int| 0 <= i < tags.len() && tags[i] == t
}

/// Exact membership of a tag string.
pub fn contains_tag(tags: &Vec<String>, t: &str) -> (r: bool)
    ensures
        r == tags_contain(views_of(tags@), t@),
{
    let ghost all = views_of(tags@);
    let mut i: usize = 0;
    while i < tags.len()
        invariant
            i <= tags@.len(),
            all == views_of(tags@),
            forall|j: int| 0 <= j < i ==> all[j] != t@,
        decreases tags@.len() - i,
    {
        proof {
            assert(all[i as int] == tags@[i as int]@);
        }
        if str_eq(tags[i].as_str(), t) {
            return true;
        }
        i += 1;
    }
    false
}

/// The key naming a snapshot's object kind.
pub open spec fn obj_key() -> Seq<char> {
    "sprt_obj"@
}

/// The key carrying the project identity hash.
pub open spec fn uniq_key() -> Seq<char> {
    "sprt_uniq"@
}

/// The key carrying the content branch.
pub open spec fn branch_key() -> Seq<char> {
    "sprt_branch"@
}

/// The key cross-referencing an uploads snapshot to its database snapshot.
pub open spec fn db_key() -> Seq<char> {
    "sprt_db"@
}

/// The key carrying packed statistics.
pub open spec fn stats_key() -> Seq<char> {
    "sprt_stats"@
}

/// The `sprt_obj` values of the three object kinds.
pub open spec fn database_kind() -> Seq<char> {
    "database"@
}

pub open spec fn uploads_kind() -> Seq<char> {
    "uploads"@
}

pub open spec fn bundle_kind() -> Seq<char> {
    "bundle"@
}

pub fn obj_key_str() -> (r: &'static str)
    ensures
        r@ == obj_key(),
{
    "sprt_obj"
}

pub fn uniq_key_str() -> (r: &'static str)
    ensures
        r@ == uniq_key(),
{
    "sprt_uniq"
}

pub fn branch_key_str() -> (r: &'static str)
    ensures
        r@ == branch_key(),
{
    "sprt_branch"
}

pub fn db_key_str() -> (r: &'static str)
    ensures
        r@ == db_key(),
{
    "sprt_db"
}

pub fn stats_key_str() -> (r: &'static str)
    ensures
        r@ == stats_key(),
{
    "sprt_stats"
}

/// The exact tag marking a bundle record.
pub fn bundle_obj_tag() -> (r: &'static str)
    ensures
        r@ == tag_str(obj_key(), bundle_kind()),
{
    proof {
        reveal_strlit("sprt_obj:bundle");
        reveal_strlit("sprt_obj");
        reveal_strlit("bundle");
        assert("sprt_obj:bundle"@ =~= tag_str(obj_key(), bundle_kind()));
    }
    "sprt_obj:bundle"
}

} // verus!
