//! Relative-path safety: splitting a path into components, resolving `.` and
//! `..`, and the rule that an uploads directory must resolve to somewhere
//! strictly inside the project root.

use vstd::prelude::*;
use vstd::string::StrSliceExecFns;
use crate::strutil::{has_prefix, split_on, split_str, str_eq, views_of};

verus! {

/// Resolve `.` and `..` components left to right; nothing if the path climbs
/// above its starting directory at any point.
pub open spec fn normalize_components(parts: Seq<Seq<char>>) -> Option<Seq<Seq<char>>>
    decreases parts.len(),
{
    if parts.len() == 0 {
        Some(Seq::<Seq<char>>::empty())
    } else {
        match normalize_components(parts.drop_last()) {
            None => None,
            Some(pre) => {
                let p = parts.last();
                if p == Seq::<char>::empty() || p == "."@ {
                    Some(pre)
                } else if p == ".."@ {
                    if pre.len() == 0 {
                        None
                    } else {
                        Some(pre.drop_last())
                    }
                } else {
                    Some(pre.push(p))
                }
            },
        }
    }
}

/// A safe uploads path: relative, never climbing above the project root, and
/// resolving to at least one component — strictly inside, never the root
/// itself.
pub open spec fn safe_relative_path(s: Seq<char>) -> bool {
    &&& (s.len() == 0 || s[0] != '/')
    &&& match normalize_components(split_on(s, '/')) {
        Some(n) => n.len() > 0,
        None => false,
    }
}

/// A path that failed to normalize keeps failing however it is extended.
pub proof fn lemma_normalize_none_extends(parts: Seq<Seq<char>>, i: int)
    requires
        0 <= i <= parts.len(),
        normalize_components(parts.take(i)) is None,
    ensures
        normalize_components(parts) is None,
    decreases parts.len() - i,
{
    if i < parts.len() {
        assert(parts.take(i + 1).drop_last() =~= parts.take(i));
        lemma_normalize_none_extends(parts, i + 1);
    } else {
        assert(parts.take(i) =~= parts);
    }
}

/// Resolve the components of a relative path; mirrors `normalize_components`.
pub fn normalize_path_components(parts: &Vec<String>) -> (r: Option<Vec<String>>)
    ensures
        match r {
            Some(v) => normalize_components(views_of(parts@)) == Some(views_of(v@)),
            None => normalize_components(views_of(parts@)) is None,
        },
{
    let ghost all = views_of(parts@);
    let mut stack: Vec<String> = Vec::new();
    let mut i: usize = 0;
    proof {
        reveal_strlit("");
        assert(all.take(0) =~= Seq::<Seq<char>>::empty());
        assert(views_of(stack@) =~~= Seq::<Seq<char>>::empty());
    }
    while i < parts.len()
        invariant
            i <= parts@.len(),
            all == views_of(parts@),
            normalize_components(all.take(i as int)) == Some(views_of(stack@)),
        decreases parts@.len() - i,
    {
        let p = parts[i].as_str();
        proof {
            reveal_strlit("");
            assert(""@ =~= Seq::<char>::empty());
            assert(all.take(i + 1).drop_last() =~= all.take(i as int));
            assert(all.take(i + 1).last() == all[i as int]);
            assert(all[i as int] == parts@[i as int]@);
        }
        if str_eq(p, "") || str_eq(p, ".") {
            // the component changes nothing
        } else if str_eq(p, "..") {
            if stack.len() == 0 {
                proof {
                    assert(normalize_components(all.take(i + 1)) is None);
                    lemma_normalize_none_extends(all, i + 1);
                }
                return None;
            }
            let ghost stack_before = stack@;
            let popped = stack.pop();
            proof {
                assert(stack@ =~= stack_before.drop_last());
                assert(views_of(stack@) =~~= views_of(stack_before).drop_last());
            }
        } else {
            let ghost stack_before = stack@;
            stack.push(parts[i].clone());
            proof {
                assert(stack@[stack@.len() - 1] == parts@[i as int]);
                assert(views_of(stack@) =~~= views_of(stack_before).push(parts@[i as int]@));
            }
        }
        i += 1;
    }
    proof {
        assert(all.take(parts@.len() as int) =~= all);
    }
    Some(stack)
}

/// Whether `path` is a safe uploads path; mirrors `safe_relative_path`.
pub fn validate_uploads_path(path: &str) -> (r: bool)
    ensures
        r == safe_relative_path(path@),
{
    let len = path.unicode_len();
    if len > 0 && path.get_char(0) == '/' {
        return false;
    }
    let parts = split_str(path, '/');
    match normalize_path_components(&parts) {
        None => false,
        Some(n) => n.len() > 0,
    }
}

/// `abs` lies directly under the directory `root`: `root`, a slash, a rest.
pub open spec fn has_dir_prefix(abs: Seq<char>, root: Seq<char>) -> bool {
    &&& abs.len() > root.len()
    &&& abs.subrange(0, root.len() as int) == root
    &&& abs[root.len() as int] == '/'
}

/// The part of `abs` below the directory `root`.
pub open spec fn dir_suffix(abs: Seq<char>, root: Seq<char>) -> Seq<char> {
    abs.subrange(root.len() as int + 1, abs.len() as int)
}

/// Strip a directory prefix: the path below `root`, or nothing when `abs`
/// does not lie under it.
pub fn strip_path_prefix(abs: &str, root: &str) -> (r: Option<String>)
    ensures
        match r {
            Some(v) => has_dir_prefix(abs@, root@) && v@ == dir_suffix(abs@, root@),
            None => !has_dir_prefix(abs@, root@),
        },
{
    let abs_len = abs.unicode_len();
    let root_len = root.unicode_len();
    if abs_len <= root_len {
        return None;
    }
    if !has_prefix(abs, root) {
        return None;
    }
    if abs.get_char(root_len) != '/' {
        return None;
    }
    Some(abs.substring_char(root_len + 1, abs_len).to_owned())
}

} // verus!
