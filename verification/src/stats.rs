//! Packed snapshot statistics: four decimal counts joined by `/` in the order
//! new, changed, unmodified, bytes added. Only this packed tag survives the
//! merge of a bundle's two sub-snapshots, so the codec is proved invertible.

use vstd::prelude::*;
use crate::strutil::{
    dec_of, has_no_char, lemma_dec_of_no_slash, lemma_dec_round_trip, lemma_split_append_sepfree,
    lemma_split_push_sep, parse_dec, parse_u64_dec, split_on, split_str, u64_to_dec, views_of,
};

verus! {

/// The four counts carried by a bundle's packed statistics tag.
#[derive(Clone, Copy, Debug, PartialEq, Eq, Structural)]
pub struct SnapshotStats {
    pub new: u64,
    pub changed: u64,
    pub unmodified: u64,
    pub data_added: u64,
}

/// The per-operation summary the engine reports for one backup.
#[derive(Clone, Copy, Debug, PartialEq, Eq, Structural)]
pub struct SnapshotSummary {
    pub files_new: u64,
    pub files_changed: u64,
    pub files_unmodified: u64,
    pub data_added: u64,
    pub total_files_processed: u64,
    pub total_bytes_processed: u64,
}

/// The packed rendering: four decimal numerals joined by `/`.
pub open spec fn packed_stats(st: SnapshotStats) -> Seq<char> {
    dec_of(st.new as nat) + seq!['/'] + dec_of(st.changed as nat) + seq!['/'] + dec_of(
        st.unmodified as nat,
    ) + seq!['/'] + dec_of(st.data_added as nat)
}

/// The count at position `i` of a split statistics tag: a missing trailing
/// part counts as zero, a malformed part fails the whole parse.
pub open spec fn spec_parse_part(parts: Seq<Seq<char>>, i: int) -> Option<u64> {
    if i < parts.len() {
        parse_dec(parts[i])
    } else {
        Some(0u64)
    }
}

/// What parsing a statistics tag value yields.
pub open spec fn spec_parse_stats(s: Seq<char>) -> Option<SnapshotStats> {
    let parts = split_on(s, '/');
    if spec_parse_part(parts, 0) is Some && spec_parse_part(parts, 1) is Some && spec_parse_part(
        parts,
        2,
    ) is Some && spec_parse_part(parts, 3) is Some {
        Some(
            SnapshotStats {
                new: spec_parse_part(parts, 0)->Some_0,
                changed: spec_parse_part(parts, 1)->Some_0,
                unmodified: spec_parse_part(parts, 2)->Some_0,
                data_added: spec_parse_part(parts, 3)->Some_0,
            },
        )
    } else {
        None
    }
}

/// Render the four counts in packed form.
pub fn format_stats(st: &SnapshotStats) -> (r: String)
    ensures
        r@ == packed_stats(*st),
{
    proof {
        reveal_strlit("/");
        assert("/"@ =~= seq!['/']);
    }
    let s0 = u64_to_dec(st.new);
    let s1 = s0.concat("/");
    let s2 = s1.concat(u64_to_dec(st.changed).as_str());
    let s3 = s2.concat("/");
    let s4 = s3.concat(u64_to_dec(st.unmodified).as_str());
    let s5 = s4.concat("/");
    let r = s5.concat(u64_to_dec(st.data_added).as_str());
    proof {
        assert(r@ =~= packed_stats(*st));
    }
    r
}

/// Parse a packed statistics tag value; mirrors `spec_parse_stats` exactly.
pub fn parse_stats(s: &str) -> (r: Option<SnapshotStats>)
    ensures
        r == spec_parse_stats(s@),
{
    let parts = split_str(s, '/');
    let ghost part_views = split_on(s@, '/');
    proof {
        assert(views_of(parts@) == part_views);
        assert(parts@.len() == part_views.len());
    }
    let new = if parts.len() > 0 {
        proof {
            assert(parts@[0]@ == part_views[0]);
        }
        parse_u64_dec(parts[0].as_str())
    } else {
        Some(0u64)
    };
    let changed = if parts.len() > 1 {
        proof {
            assert(parts@[1]@ == part_views[1]);
        }
        parse_u64_dec(parts[1].as_str())
    } else {
        Some(0u64)
    };
    let unmodified = if parts.len() > 2 {
        proof {
            assert(parts@[2]@ == part_views[2]);
        }
        parse_u64_dec(parts[2].as_str())
    } else {
        Some(0u64)
    };
    let data_added = if parts.len() > 3 {
        proof {
            assert(parts@[3]@ == part_views[3]);
        }
        parse_u64_dec(parts[3].as_str())
    } else {
        Some(0u64)
    };
    match (new, changed, unmodified, data_added) {
        (Some(n), Some(c), Some(u), Some(d)) => Some(
            SnapshotStats { new: n, changed: c, unmodified: u, data_added: d },
        ),
        _ => None,
    }
}

/// A packed statistics tag splits into exactly its four numerals.
pub proof fn lemma_packed_stats_split(st: SnapshotStats)
    ensures
        split_on(packed_stats(st), '/') == seq![
            dec_of(st.new as nat),
            dec_of(st.changed as nat),
            dec_of(st.unmodified as nat),
            dec_of(st.data_added as nat),
        ],
{
    let a = dec_of(st.new as nat);
    let b = dec_of(st.changed as nat);
    let c = dec_of(st.unmodified as nat);
    let d = dec_of(st.data_added as nat);
    lemma_dec_of_no_slash(st.new as nat);
    lemma_dec_of_no_slash(st.changed as nat);
    lemma_dec_of_no_slash(st.unmodified as nat);
    lemma_dec_of_no_slash(st.data_added as nat);
    let e = Seq::<char>::empty();

    lemma_split_append_sepfree(e, a, '/');
    assert(e + a =~= a);
    assert(split_on(a, '/') =~~= seq![a]) by {
        assert(split_on(e, '/') == seq![e]);
        assert(seq![e].update(0, e + a) =~~= seq![e + a]);
        assert(e + a =~= a);
    }

    let s1 = a + seq!['/'];
    assert(s1 =~= a.push('/'));
    lemma_split_push_sep(a, '/');
    assert(split_on(s1, '/') =~~= seq![a, e]);

    let s2 = s1 + b;
    lemma_split_append_sepfree(s1, b, '/');
    assert(split_on(s2, '/') =~~= seq![a, b]) by {
        assert(seq![a, e].update(1, seq![a, e].last() + b) =~~= seq![a, e + b]);
        assert(e + b =~= b);
        assert(seq![a, e + b] =~~= seq![a, b]);
    }

    let s3 = s2 + seq!['/'];
    assert(s3 =~= s2.push('/'));
    lemma_split_push_sep(s2, '/');
    assert(split_on(s3, '/') =~~= seq![a, b, e]);

    let s4 = s3 + c;
    lemma_split_append_sepfree(s3, c, '/');
    assert(split_on(s4, '/') =~~= seq![a, b, c]) by {
        assert(seq![a, b, e].update(2, seq![a, b, e].last() + c) =~~= seq![a, b, e + c]);
        assert(e + c =~= c);
        assert(seq![a, b, e + c] =~~= seq![a, b, c]);
    }

    let s5 = s4 + seq!['/'];
    assert(s5 =~= s4.push('/'));
    lemma_split_push_sep(s4, '/');
    assert(split_on(s5, '/') =~~= seq![a, b, c, e]);

    let s6 = s5 + d;
    lemma_split_append_sepfree(s5, d, '/');
    assert(split_on(s6, '/') =~~= seq![a, b, c, d]) by {
        assert(seq![a, b, c, e].update(3, seq![a, b, c, e].last() + d) =~~= seq![a, b, c, e + d]);
        assert(e + d =~= d);
        assert(seq![a, b, c, e + d] =~~= seq![a, b, c, d]);
    }

    assert(packed_stats(st) =~= s6);
}

/// Packing and parsing are inverses: the four counts survive the round trip.
pub proof fn lemma_stats_round_trip(st: SnapshotStats)
    ensures
        spec_parse_stats(packed_stats(st)) == Some(st),
{
    lemma_packed_stats_split(st);
    let parts = split_on(packed_stats(st), '/');
    lemma_dec_round_trip(st.new);
    lemma_dec_round_trip(st.changed);
    lemma_dec_round_trip(st.unmodified);
    lemma_dec_round_trip(st.data_added);
    assert(parts[0] == dec_of(st.new as nat));
    assert(parts[1] == dec_of(st.changed as nat));
    assert(parts[2] == dec_of(st.unmodified as nat));
    assert(parts[3] == dec_of(st.data_added as nat));
}

/// Add two summaries count-for-count; nothing if any count overflows.
pub fn sum_stats(a: &SnapshotSummary, b: &SnapshotSummary) -> (r: Option<SnapshotStats>)
    ensures
        match r {
            Some(st) => {
                &&& a.files_new + b.files_new <= u64::MAX
                &&& a.files_changed + b.files_changed <= u64::MAX
                &&& a.files_unmodified + b.files_unmodified <= u64::MAX
                &&& a.data_added + b.data_added <= u64::MAX
                &&& st.new == a.files_new + b.files_new
                &&& st.changed == a.files_changed + b.files_changed
                &&& st.unmodified == a.files_unmodified + b.files_unmodified
                &&& st.data_added == a.data_added + b.data_added
            },
            None => {
                ||| a.files_new + b.files_new > u64::MAX
                ||| a.files_changed + b.files_changed > u64::MAX
                ||| a.files_unmodified + b.files_unmodified > u64::MAX
                ||| a.data_added + b.data_added > u64::MAX
            },
        },
{
    let new = a.files_new.checked_add(b.files_new);
    let changed = a.files_changed.checked_add(b.files_changed);
    let unmodified = a.files_unmodified.checked_add(b.files_unmodified);
    let data_added = a.data_added.checked_add(b.data_added);
    match (new, changed, unmodified, data_added) {
        (Some(n), Some(c), Some(u), Some(d)) => Some(
            SnapshotStats { new: n, changed: c, unmodified: u, data_added: d },
        ),
        _ => None,
    }
}

} // verus!
