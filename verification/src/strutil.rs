//! Verified helpers on strings: equality, prefix tests, splitting on a
//! separator, a decimal codec for `u64`, and lowercase hex encoding.

use vstd::prelude::*;
use vstd::string::StrSliceExecFns;
use vstd::string::StringExecFns;

verus! {

/// The views of a sequence of strings, each as a sequence of characters.
pub open spec fn views_of(strings: Seq<String>) -> Seq<Seq<char>> {
    strings.map_values(|t: String| t@)
}

/// Character-for-character string equality.
pub fn str_eq(a: &str, b: &str) -> (r: bool)
    ensures
        r == (a@ == b@),
{
    let a_len = a.unicode_len();
    let b_len = b.unicode_len();
    if a_len != b_len {
        return false;
    }
    let mut i: usize = 0;
    while i < a_len
        invariant
            i <= a_len,
            a_len == a@.len(),
            a_len == b@.len(),
            forall|j: int| 0 <= j < i ==> a@[j] == b@[j],
        decreases a_len - i,
    {
        if a.get_char(i) != b.get_char(i) {
            return false;
        }
        i += 1;
    }
    proof {
        assert(a@ =~= b@);
    }
    true
}

/// Whether `prefix` is a prefix of `s`.
pub fn has_prefix(s: &str, prefix: &str) -> (r: bool)
    ensures
        r == prefix@.is_prefix_of(s@),
{
    let s_len = s.unicode_len();
    let p_len = prefix.unicode_len();
    if p_len > s_len {
        return false;
    }
    let mut i: usize = 0;
    while i < p_len
        invariant
            i <= p_len,
            p_len <= s_len,
            s_len == s@.len(),
            p_len == prefix@.len(),
            forall|j: int| 0 <= j < i ==> s@[j] == prefix@[j],
        decreases p_len - i,
    {
        if s.get_char(i) != prefix.get_char(i) {
            proof {
                assert(s@.subrange(0, p_len as int)[i as int] == s@[i as int]);
            }
            return false;
        }
        i += 1;
    }
    proof {
        assert(prefix@ =~= s@.subrange(0, p_len as int));
    }
    true
}

/// `a` followed by `b`.
pub fn concat2(a: &str, b: &str) -> (r: String)
    ensures
        r@ == a@ + b@,
{
    let mut s = a.to_owned();
    s.append(b);
    s
}

/// `a` followed by `b` followed by `c`.
pub fn concat3(a: &str, b: &str, c: &str) -> (r: String)
    ensures
        r@ == a@ + b@ + c@,
{
    let mut s = a.to_owned();
    s.append(b);
    s.append(c);
    s
}

/// Splitting `s` on `sep`: the pieces between separators, in order. An empty
/// input has one empty piece; a trailing separator yields a final empty piece.
pub open spec fn split_on(s: Seq<char>, sep: char) -> Seq<Seq<char>>
    decreases s.len(),
{
    if s.len() == 0 {
        seq![Seq::<char>::empty()]
    } else {
        let rest = split_on(s.drop_last(), sep);
        if s.last() == sep {
            rest.push(Seq::<char>::empty())
        } else {
            rest.update(rest.len() - 1, rest.last().push(s.last()))
        }
    }
}

pub proof fn lemma_split_on_nonempty(s: Seq<char>, sep: char)
    ensures
        split_on(s, sep).len() >= 1,
    decreases s.len(),
{
    if s.len() > 0 {
        lemma_split_on_nonempty(s.drop_last(), sep);
    }
}

/// No character of `s` is `sep`.
pub open spec fn has_no_char(s: Seq<char>, sep: char) -> bool {
    forall|i: int| 0 <= i < s.len() ==> s[i] != sep
}

/// Appending a separator appends a fresh empty piece.
pub proof fn lemma_split_push_sep(s: Seq<char>, sep: char)
    ensures
        split_on(s.push(sep), sep) == split_on(s, sep).push(Seq::<char>::empty()),
{
    assert(s.push(sep).drop_last() =~= s);
    assert(s.push(sep).last() == sep);
}

/// Appending separator-free text extends the final piece.
pub proof fn lemma_split_append_sepfree(s: Seq<char>, u: Seq<char>, sep: char)
    requires
        has_no_char(u, sep),
    ensures
        split_on(s + u, sep) == split_on(s, sep).update(
            split_on(s, sep).len() - 1,
            split_on(s, sep).last() + u,
        ),
    decreases u.len(),
{
    lemma_split_on_nonempty(s, sep);
    let parts = split_on(s, sep);
    if u.len() == 0 {
        assert(s + u =~= s);
        assert(parts.last() + u =~= parts.last());
        assert(parts.update(parts.len() - 1, parts.last() + u) =~= parts);
    } else {
        let u0 = u.drop_last();
        assert(has_no_char(u0, sep));
        lemma_split_append_sepfree(s, u0, sep);
        let mid = split_on(s + u0, sep);
        assert((s + u) =~= (s + u0).push(u.last()));
        assert((s + u).last() == u.last());
        assert((s + u).drop_last() =~= s + u0);
        assert(u.last() != sep);
        assert(split_on(s + u, sep) == mid.update(mid.len() - 1, mid.last().push(u.last())));
        assert(mid == parts.update(parts.len() - 1, parts.last() + u0));
        assert(mid.len() == parts.len());
        assert(mid.last() == parts.last() + u0);
        assert(mid.last().push(u.last()) =~= parts.last() + u);
        assert(mid.update(mid.len() - 1, mid.last().push(u.last())) =~= parts.update(
            parts.len() - 1,
            parts.last() + u,
        ));
    }
}

/// Split `s` into the pieces between occurrences of `sep`.
pub fn split_str(s: &str, sep: char) -> (r: Vec<String>)
    ensures
        views_of(r@) == split_on(s@, sep),
{
    let len = s.unicode_len();
    let mut parts: Vec<String> = Vec::new();
    let mut cur_start: usize = 0;
    let mut i: usize = 0;
    proof {
        assert(s@.take(0) =~= Seq::<char>::empty());
        assert(views_of(parts@).push(s@.subrange(0, 0)) =~~= split_on(s@.take(0), sep));
    }
    while i < len
        invariant
            cur_start <= i <= len,
            len == s@.len(),
            views_of(parts@).push(s@.subrange(cur_start as int, i as int)) == split_on(
                s@.take(i as int),
                sep,
            ),
        decreases len - i,
    {
        let c = s.get_char(i);
        proof {
            assert(s@.take(i + 1).drop_last() =~= s@.take(i as int));
            assert(s@.take(i + 1).last() == s@[i as int]);
            lemma_split_on_nonempty(s@.take(i as int), sep);
        }
        if c == sep {
            let piece = s.substring_char(cur_start, i).to_owned();
            parts.push(piece);
            proof {
                let old_views = views_of(parts@.drop_last());
                assert(parts@.drop_last() =~= parts@.subrange(0, parts@.len() - 1));
                assert(views_of(parts@) =~~= old_views.push(s@.subrange(
                    cur_start as int,
                    i as int,
                )));
                assert(s@.subrange(i + 1, i + 1) =~= Seq::<char>::empty());
                assert(views_of(parts@).push(s@.subrange(i + 1, i + 1)) =~~= split_on(
                    s@.take(i + 1),
                    sep,
                ));
            }
            cur_start = i + 1;
        } else {
            proof {
                let prev = split_on(s@.take(i as int), sep);
                assert(prev.last() == s@.subrange(cur_start as int, i as int));
                assert(s@.subrange(cur_start as int, i + 1) =~= s@.subrange(
                    cur_start as int,
                    i as int,
                ).push(s@[i as int]));
                assert(views_of(parts@).push(s@.subrange(cur_start as int, i + 1)) =~~= prev.update(
                    prev.len() - 1,
                    prev.last().push(s@[i as int]),
                ));
            }
        }
        i += 1;
    }
    let piece = s.substring_char(cur_start, len).to_owned();
    parts.push(piece);
    proof {
        let old_views = views_of(parts@.drop_last());
        assert(parts@.drop_last() =~= parts@.subrange(0, parts@.len() - 1));
        assert(views_of(parts@) =~~= old_views.push(s@.subrange(cur_start as int, len as int)));
        assert(s@.take(len as int) =~= s@);
    }
    parts
}

/// The decimal digit characters, least significant last.
pub open spec fn dec_digit(d: int) -> char {
    if d == 0 {
        '0'
    } else if d == 1 {
        '1'
    } else if d == 2 {
        '2'
    } else if d == 3 {
        '3'
    } else if d == 4 {
        '4'
    } else if d == 5 {
        '5'
    } else if d == 6 {
        '6'
    } else if d == 7 {
        '7'
    } else if d == 8 {
        '8'
    } else {
        '9'
    }
}

/// The usual decimal rendering of `n`, without leading zeros.
pub open spec fn dec_of(n: nat) -> Seq<char>
    decreases n,
{
    if n < 10 {
        seq![dec_digit(n as int)]
    } else {
        dec_of(n / 10) + seq![dec_digit((n % 10) as int)]
    }
}

/// The value of a decimal digit character, or -1 for any other character.
pub open spec fn digit_val(c: char) -> int {
    if c == '0' {
        0
    } else if c == '1' {
        1
    } else if c == '2' {
        2
    } else if c == '3' {
        3
    } else if c == '4' {
        4
    } else if c == '5' {
        5
    } else if c == '6' {
        6
    } else if c == '7' {
        7
    } else if c == '8' {
        8
    } else if c == '9' {
        9
    } else {
        -1
    }
}

pub open spec fn all_digits(s: Seq<char>) -> bool {
    forall|i: int| 0 <= i < s.len() ==> digit_val(s[i]) >= 0
}

/// The numeric value of a sequence of decimal digits.
pub open spec fn dec_val(s: Seq<char>) -> int
    decreases s.len(),
{
    if s.len() == 0 {
        0
    } else {
        dec_val(s.drop_last()) * 10 + digit_val(s.last())
    }
}

/// What parsing a decimal numeral yields: the value, if `s` is a nonempty
/// all-digit string whose value fits in a `u64`; nothing otherwise.
pub open spec fn parse_dec(s: Seq<char>) -> Option<u64> {
    if s.len() > 0 && all_digits(s) && dec_val(s) <= u64::MAX {
        Some(dec_val(s) as u64)
    } else {
        None
    }
}

pub proof fn lemma_dec_val_nonneg(s: Seq<char>)
    requires
        all_digits(s),
    ensures
        dec_val(s) >= 0,
    decreases s.len(),
{
    if s.len() > 0 {
        assert(all_digits(s.drop_last()));
        lemma_dec_val_nonneg(s.drop_last());
    }
}

/// A digit-string's value only grows as the string extends.
pub proof fn lemma_dec_val_prefix_le(s: Seq<char>, i: int)
    requires
        all_digits(s),
        0 <= i <= s.len(),
    ensures
        dec_val(s.take(i)) <= dec_val(s),
    decreases s.len() - i,
{
    if i < s.len() {
        let t = s.take(i + 1);
        assert(t.drop_last() =~= s.take(i));
        assert(all_digits(s.take(i)));
        lemma_dec_val_nonneg(s.take(i));
        assert(digit_val(t.last()) >= 0);
        assert(dec_val(t) == dec_val(s.take(i)) * 10 + digit_val(t.last()));
        lemma_dec_val_prefix_le(s, i + 1);
    } else {
        assert(s.take(i) =~= s);
    }
}

/// The exec digit, as a one-character string.
fn digit_str(d: u64) -> (r: &'static str)
    requires
        d < 10,
    ensures
        r@ == seq![dec_digit(d as int)],
{
    proof {
        reveal_strlit("0");
        reveal_strlit("1");
        reveal_strlit("2");
        reveal_strlit("3");
        reveal_strlit("4");
        reveal_strlit("5");
        reveal_strlit("6");
        reveal_strlit("7");
        reveal_strlit("8");
        reveal_strlit("9");
    }
    let r: &'static str = if d == 0 {
        "0"
    } else if d == 1 {
        "1"
    } else if d == 2 {
        "2"
    } else if d == 3 {
        "3"
    } else if d == 4 {
        "4"
    } else if d == 5 {
        "5"
    } else if d == 6 {
        "6"
    } else if d == 7 {
        "7"
    } else if d == 8 {
        "8"
    } else {
        "9"
    };
    proof {
        assert(r@ =~= seq![dec_digit(d as int)]);
    }
    r
}

/// Render `n` in decimal.
pub fn u64_to_dec(n: u64) -> (r: String)
    ensures
        r@ == dec_of(n as nat),
    decreases n,
{
    if n < 10 {
        digit_str(n).to_owned()
    } else {
        let rest = u64_to_dec(n / 10);
        let r = rest.concat(digit_str(n % 10));
        proof {
            assert(r@ =~= dec_of((n / 10) as nat) + seq![dec_digit((n % 10) as int)]);
        }
        r
    }
}

/// Parse a decimal numeral; mirrors `parse_dec` exactly.
pub fn parse_u64_dec(s: &str) -> (r: Option<u64>)
    ensures
        r == parse_dec(s@),
{
    let len = s.unicode_len();
    if len == 0 {
        return None;
    }
    let mut acc: u128 = 0;
    let mut i: usize = 0;
    proof {
        assert(s@.take(0) =~= Seq::<char>::empty());
    }
    while i < len
        invariant
            i <= len,
            len == s@.len(),
            all_digits(s@.take(i as int)),
            acc == dec_val(s@.take(i as int)),
            acc <= u64::MAX,
        decreases len - i,
    {
        let c = s.get_char(i);
        let d: u128 = match c {
            '0' => 0,
            '1' => 1,
            '2' => 2,
            '3' => 3,
            '4' => 4,
            '5' => 5,
            '6' => 6,
            '7' => 7,
            '8' => 8,
            '9' => 9,
            _ => 10,
        };
        if d == 10 {
            assert(digit_val(s@[i as int]) < 0);
            assert(!all_digits(s@));
            return None;
        }
        assert(d == digit_val(s@[i as int]));
        let next: u128 = acc * 10 + d;
        proof {
            assert(s@.take(i + 1).drop_last() =~= s@.take(i as int));
            assert(s@.take(i + 1).last() == s@[i as int]);
            assert(all_digits(s@.take(i + 1)));
            assert(next == dec_val(s@.take(i + 1)));
        }
        if next > u64::MAX as u128 {
            proof {
                if all_digits(s@) {
                    lemma_dec_val_prefix_le(s@, i + 1);
                    assert(dec_val(s@) > u64::MAX);
                }
            }
            return None;
        }
        acc = next;
        i += 1;
    }
    proof {
        assert(s@.take(len as int) =~= s@);
    }
    Some(acc as u64)
}

pub proof fn lemma_dec_of_all_digits(n: nat)
    ensures
        all_digits(dec_of(n)),
        dec_of(n).len() >= 1,
    decreases n,
{
    if n >= 10 {
        lemma_dec_of_all_digits(n / 10);
        let s = dec_of(n);
        assert(s == dec_of(n / 10) + seq![dec_digit((n % 10) as int)]);
        assert forall|i: int| 0 <= i < s.len() implies digit_val(s[i]) >= 0 by {
            if i < dec_of(n / 10).len() {
                assert(s[i] == dec_of(n / 10)[i]);
            } else {
                assert(s[i] == dec_digit((n % 10) as int));
            }
        }
    }
}

/// Decimal rendering and parsing are inverses.
pub proof fn lemma_dec_round_trip(n: u64)
    ensures
        parse_dec(dec_of(n as nat)) == Some(n),
    decreases n,
{
    lemma_dec_of_all_digits(n as nat);
    lemma_dec_val_of_dec_of(n as nat);
}

pub proof fn lemma_dec_val_of_dec_of(n: nat)
    ensures
        dec_val(dec_of(n)) == n,
    decreases n,
{
    if n < 10 {
        let s = dec_of(n);
        assert(s.len() == 1);
        assert(s.last() == dec_digit(n as int));
        assert(s.drop_last() =~= Seq::<char>::empty());
        assert(dec_val(s.drop_last()) == 0);
        assert(dec_val(s) == digit_val(dec_digit(n as int)));
        assert(digit_val(dec_digit(n as int)) == n);
    } else {
        lemma_dec_val_of_dec_of(n / 10);
        let s = dec_of(n);
        assert(s.drop_last() =~= dec_of(n / 10));
        assert(s.last() == dec_digit((n % 10) as int));
        assert(digit_val(dec_digit((n % 10) as int)) == n % 10);
        assert(dec_val(s) == (n / 10) * 10 + n % 10);
    }
}

/// The decimal digits contain no `/`, which keeps packed statistics splittable.
pub proof fn lemma_dec_of_no_slash(n: nat)
    ensures
        has_no_char(dec_of(n), '/'),
    decreases n,
{
    if n >= 10 {
        lemma_dec_of_no_slash(n / 10);
        let s = dec_of(n);
        assert forall|i: int| 0 <= i < s.len() implies s[i] != '/' by {
            if i < dec_of(n / 10).len() {
                assert(s[i] == dec_of(n / 10)[i]);
            } else {
                assert(s[i] == dec_digit((n % 10) as int));
            }
        }
    }
}

/// The hex digit characters.
pub open spec fn hex_digit(d: int) -> char {
    if d == 0 {
        '0'
    } else if d == 1 {
        '1'
    } else if d == 2 {
        '2'
    } else if d == 3 {
        '3'
    } else if d == 4 {
        '4'
    } else if d == 5 {
        '5'
    } else if d == 6 {
        '6'
    } else if d == 7 {
        '7'
    } else if d == 8 {
        '8'
    } else if d == 9 {
        '9'
    } else if d == 10 {
        'a'
    } else if d == 11 {
        'b'
    } else if d == 12 {
        'c'
    } else if d == 13 {
        'd'
    } else if d == 14 {
        'e'
    } else {
        'f'
    }
}

/// Lowercase hex encoding: two digits per byte, high nibble first.
pub open spec fn hex_lower_of(data: Seq<u8>) -> Seq<char>
    decreases data.len(),
{
    if data.len() == 0 {
        Seq::<char>::empty()
    } else {
        hex_lower_of(data.drop_last()) + seq![
            hex_digit(data.last() as int / 16),
            hex_digit(data.last() as int % 16),
        ]
    }
}

/// The exec hex digit, as a one-character string.
fn hex_digit_str(d: u8) -> (r: &'static str)
    requires
        d < 16,
    ensures
        r@ == seq![hex_digit(d as int)],
{
    proof {
        reveal_strlit("0");
        reveal_strlit("1");
        reveal_strlit("2");
        reveal_strlit("3");
        reveal_strlit("4");
        reveal_strlit("5");
        reveal_strlit("6");
        reveal_strlit("7");
        reveal_strlit("8");
        reveal_strlit("9");
        reveal_strlit("a");
        reveal_strlit("b");
        reveal_strlit("c");
        reveal_strlit("d");
        reveal_strlit("e");
        reveal_strlit("f");
    }
    let r: &'static str = if d == 0 {
        "0"
    } else if d == 1 {
        "1"
    } else if d == 2 {
        "2"
    } else if d == 3 {
        "3"
    } else if d == 4 {
        "4"
    } else if d == 5 {
        "5"
    } else if d == 6 {
        "6"
    } else if d == 7 {
        "7"
    } else if d == 8 {
        "8"
    } else if d == 9 {
        "9"
    } else if d == 10 {
        "a"
    } else if d == 11 {
        "b"
    } else if d == 12 {
        "c"
    } else if d == 13 {
        "d"
    } else if d == 14 {
        "e"
    } else {
        "f"
    };
    proof {
        assert(r@ =~= seq![hex_digit(d as int)]);
    }
    r
}

/// Encode bytes as lowercase hex.
pub fn to_hex_lower(data: &Vec<u8>) -> (r: String)
    ensures
        r@ == hex_lower_of(data@),
{
    let mut s = String::new();
    let mut i: usize = 0;
    proof {
        assert(data@.take(0) =~= Seq::<u8>::empty());
    }
    while i < data.len()
        invariant
            i <= data@.len(),
            s@ == hex_lower_of(data@.take(i as int)),
        decreases data@.len() - i,
    {
        let b = data[i];
        let s2 = s.concat(hex_digit_str(b / 16));
        s = s2.concat(hex_digit_str(b % 16));
        proof {
            assert(data@.take(i + 1).drop_last() =~= data@.take(i as int));
            assert(data@.take(i + 1).last() == data@[i as int]);
            assert(s@ =~= hex_lower_of(data@.take(i + 1)));
        }
        i += 1;
    }
    proof {
        assert(data@.take(data@.len() as int) =~= data@);
    }
    s
}

/// First-match lookup in a a list of key/value pairs.
pub open spec fn spec_assoc_value(opts: Seq<(String, String)>, key: Seq<char>) -> Option<Seq<char>>
    decreases opts.len(),
{
    if opts.len() == 0 {
        None
    } else if opts.first().0@ == key {
        Some(opts.first().1@)
    } else {
        spec_assoc_value(opts.drop_first(), key)
    }
}

/// First-match lookup in a a list of key/value pairs.
pub fn assoc_value(opts: &Vec<(String, String)>, key: &str) -> (r: Option<String>)
    ensures
        match r {
            Some(v) => spec_assoc_value(opts@, key@) == Some(v@),
            None => spec_assoc_value(opts@, key@) is None,
        },
{
    let mut i: usize = 0;
    proof {
        assert(opts@.skip(0) =~= opts@);
    }
    while i < opts.len()
        invariant
            i <= opts@.len(),
            spec_assoc_value(opts@, key@) == spec_assoc_value(opts@.skip(i as int), key@),
        decreases opts@.len() - i,
    {
        proof {
            assert(opts@.skip(i as int).first() == opts@[i as int]);
            assert(opts@.skip(i as int).drop_first() =~= opts@.skip(i + 1));
        }
        if str_eq(opts[i].0.as_str(), key) {
            return Some(opts[i].1.clone());
        }
        i += 1;
    }
    proof {
        assert(opts@.skip(opts@.len() as int) =~= Seq::<(String, String)>::empty());
    }
    None
}

} // verus!
