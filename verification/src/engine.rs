//! Core tool state: the tool home, its configuration record, and the
//! update-check freshness rule. Reading and writing the configuration file
//! is the caller's business; the rules about its contents live here.

use vstd::prelude::*;
use vstd::string::StrSliceExecFns;
use vstd::string::StringExecFns;
use crate::strutil::{assoc_value, concat2, spec_assoc_value};

verus! {

/// Seconds a cached update check stays fresh.
pub const UPDATE_CHECK_INTERVAL_SECS: u64 = 86400;

/// The tool-wide configuration: the stash's secret, the default repository
/// label, and the cached update-check state.
pub struct SproutConfig {
    pub stash_key: String,
    pub default_repo: String,
    pub last_update_check: u64,
    pub update_available: Option<String>,
}

impl core::default::Default for SproutConfig {
    /// A fresh configuration: empty secret and default repository, and no
    /// update check on record.
    fn default() -> (r: SproutConfig)
        ensures
            r.stash_key@.len() == 0,
            r.default_repo@.len() == 0,
            r.last_update_check == 0,
            r.update_available is None,
    {
        proof {
            reveal_strlit("");
        }
        SproutConfig {
            stash_key: "".to_owned(),
            default_repo: "".to_owned(),
            last_update_check: 0,
            update_available: None,
        }
    }
}

/// Core tool state: where the tool keeps its home directory.
pub struct Engine {
    pub sprout_home: String,
}

impl Engine {
    /// The tool home directory.
    pub fn get_home(&self) -> (r: String)
        ensures
            r == self.sprout_home,
    {
        self.sprout_home.clone()
    }

    /// The stash repository's fixed location under the tool home.
    pub fn get_stash_path(&self) -> (r: String)
        ensures
            r@ == self.sprout_home@ + "/stash"@,
    {
        concat2(self.sprout_home.as_str(), "/stash")
    }

    /// Whether a day has passed since the last update check.
    pub fn should_check_for_updates(&self, config: &SproutConfig, now_secs: u64) -> (r: bool)
        requires
            now_secs >= config.last_update_check,
        ensures
            r == (now_secs - config.last_update_check >= UPDATE_CHECK_INTERVAL_SECS),
    {
        now_secs - config.last_update_check >= UPDATE_CHECK_INTERVAL_SECS
    }

    /// Record the outcome of an update check: the check time and what is
    /// available move; the secret and default repository stay.
    pub fn record_update_check(
        &self,
        config: &mut SproutConfig,
        now_secs: u64,
        available: Option<String>,
    )
        ensures
            final(config).last_update_check == now_secs,
            final(config).update_available == available,
            final(config).stash_key == old(config).stash_key,
            final(config).default_repo == old(config).default_repo,
    {
        config.last_update_check = now_secs;
        config.update_available = available;
    }
}

/// A character that may start a variable name in a `${NAME}` reference.
pub open spec fn is_var_start_char(c: char) -> bool {
    ('a' <= c && c <= 'z') || ('A' <= c && c <= 'Z') || c == '_'
}

/// A character that may continue a variable name.
pub open spec fn is_var_char(c: char) -> bool {
    is_var_start_char(c) || ('0' <= c && c <= '9')
}

/// The length of the run of name characters starting at `i`.
pub open spec fn var_run_len(s: Seq<char>, i: int) -> nat
    decreases s.len() - i,
{
    if 0 <= i < s.len() && is_var_char(s[i]) {
        1 + var_run_len(s, i + 1)
    } else {
        0
    }
}

/// Whether a well-formed `${NAME}` reference begins at `i`: dollar, brace, a
/// name of at least one character starting with a letter or underscore, and
/// a closing brace.
pub open spec fn has_var_ref_at(s: Seq<char>, i: int) -> bool {
    &&& 0 <= i
    &&& i + 2 < s.len()
    &&& s[i] == '$'
    &&& s[i + 1] == '{'
    &&& var_run_len(s, i + 2) >= 1
    &&& is_var_start_char(s[i + 2])
    &&& i + 2 + var_run_len(s, i + 2) < s.len()
    &&& s[i + 2 + var_run_len(s, i + 2)] == '}'
}

/// The name of the reference beginning at `i`.
pub open spec fn var_ref_name(s: Seq<char>, i: int) -> Seq<char> {
    s.subrange(i + 2, i + 2 + var_run_len(s, i + 2) as int)
}

/// The index just past the reference's closing brace.
pub open spec fn var_ref_end(s: Seq<char>, i: int) -> int {
    i + 3 + var_run_len(s, i + 2) as int
}

/// The expansion of `s` from position `i` on: each well-formed reference is
/// replaced by its variable's value, a reference to an unknown variable is
/// kept as written, and everything else is copied through.
pub open spec fn spec_expand_from(s: Seq<char>, i: int, vars: Seq<(String, String)>) -> Seq<char>
    decreases s.len() - i,
{
    if i < 0 || i >= s.len() {
        Seq::<char>::empty()
    } else if has_var_ref_at(s, i) {
        (match spec_assoc_value(vars, var_ref_name(s, i)) {
            Some(v) => v,
            None => s.subrange(i, var_ref_end(s, i)),
        }) + spec_expand_from(s, var_ref_end(s, i), vars)
    } else {
        seq![s[i]] + spec_expand_from(s, i + 1, vars)
    }
}

/// The full expansion of `s` against the variable list.
pub open spec fn spec_expand(s: Seq<char>, vars: Seq<(String, String)>) -> Seq<char> {
    spec_expand_from(s, 0, vars)
}

/// A maximal run of name characters has exactly the scanned length.
proof fn lemma_var_run_len_exact(s: Seq<char>, a: int, b: int)
    requires
        0 <= a <= b <= s.len(),
        forall|k: int| a <= k < b ==> is_var_char(s[k]),
        b == s.len() || !is_var_char(s[b]),
    ensures
        var_run_len(s, a) == b - a,
    decreases b - a,
{
    if a < b {
        lemma_var_run_len_exact(s, a + 1, b);
    }
}

fn is_var_start_char_exec(c: char) -> (r: bool)
    ensures
        r == is_var_start_char(c),
{
    (c >= 'a' && c <= 'z') || (c >= 'A' && c <= 'Z') || c == '_'
}

fn is_var_char_exec(c: char) -> (r: bool)
    ensures
        r == is_var_char(c),
{
    is_var_start_char_exec(c) || (c >= '0' && c <= '9')
}

/// Expand `${NAME}` variable references against the given name/value list;
/// a reference to a name not in the list stays as written. Mirrors
/// `spec_expand` exactly.
pub fn expand_var(raw: &str, vars: &Vec<(String, String)>) -> (r: String)
    ensures
        r@ == spec_expand(raw@, vars@),
{
    let len = raw.unicode_len();
    let mut out = String::new();
    let mut i: usize = 0;
    while i < len
        invariant
            i <= len,
            len == raw@.len(),
            out@ + spec_expand_from(raw@, i as int, vars@) == spec_expand(raw@, vars@),
        decreases len - i,
    {
        let ghost out_before = out@;
        let c = raw.get_char(i);
        if c == '$' && i + 1 < len && raw.get_char(i + 1) == '{' {
            let mut j = i + 2;
            while j < len && is_var_char_exec(raw.get_char(j))
                invariant
                    i + 2 <= j <= len,
                    len == raw@.len(),
                    forall|k: int| i + 2 <= k < j ==> is_var_char(raw@[k]),
                decreases len - j,
            {
                j += 1;
            }
            proof {
                lemma_var_run_len_exact(raw@, i + 2, j as int);
                assert(var_run_len(raw@, i + 2) == j - i - 2);
            }
            if j > i + 2 && is_var_start_char_exec(raw.get_char(i + 2)) && j < len
                && raw.get_char(j) == '}' {
                proof {
                    assert(has_var_ref_at(raw@, i as int));
                    assert(var_ref_end(raw@, i as int) == j + 1);
                }
                let name = raw.substring_char(i + 2, j);
                proof {
                    assert(name@ =~= var_ref_name(raw@, i as int));
                }
                let piece: String = match assoc_value(vars, name) {
                    Some(v) => v,
                    None => raw.substring_char(i, j + 1).to_owned(),
                };
                proof {
                    assert(piece@ == match spec_assoc_value(vars@, var_ref_name(raw@, i as int)) {
                        Some(v) => v,
                        None => raw@.subrange(i as int, var_ref_end(raw@, i as int)),
                    });
                }
                out.append(piece.as_str());
                proof {
                    assert(out@ + spec_expand_from(raw@, j + 1, vars@) =~= out_before + (piece@
                        + spec_expand_from(raw@, j + 1, vars@)));
                    assert(out@ + spec_expand_from(raw@, j + 1, vars@) == spec_expand(
                        raw@,
                        vars@,
                    ));
                }
                i = j + 1;
                continue ;
            }
            proof {
                assert(!has_var_ref_at(raw@, i as int));
            }
        } else {
            proof {
                assert(!has_var_ref_at(raw@, i as int));
            }
        }
        let one = raw.substring_char(i, i + 1);
        out.append(one);
        proof {
            assert(one@ =~= seq![raw@[i as int]]);
            assert(out@ + spec_expand_from(raw@, i + 1, vars@) =~= out_before + (one@
                + spec_expand_from(raw@, i + 1, vars@)));
            assert(out@ + spec_expand_from(raw@, i + 1, vars@) == spec_expand(raw@, vars@));
        }
        i += 1;
    }
    proof {
        assert(spec_expand_from(raw@, len as int, vars@) =~= Seq::<char>::empty());
        assert(out@ =~= out@ + spec_expand_from(raw@, len as int, vars@));
    }
    out
}

} // verus!
