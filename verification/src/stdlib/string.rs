//! String manipulation utilities. Lengths and positions count characters unless a
//! function says it counts bytes (of the UTF-8 encoding).

use vstd::prelude::*;
use vstd::utf8::encode_utf8;
use crate::stdlib::collections::concat_all;
use crate::stdlib::text::{
    alphabetic, alphanumeric, char_is_alphabetic, char_is_alphanumeric, char_to_uppercase,
    char_upper, char_width, chars_of, is_ascii_digit_char, is_whitespace, is_ws,
    lemma_encode_utf8_push_len, match_at, matches_at, str_lower, str_to_lowercase,
    str_to_uppercase, str_upper, string_of,
};

verus! {

broadcast use vstd::string::group_string_axioms;

/// Whether `s` begins with `prefix`.
pub fn starts_with(s: &str, prefix: &str) -> (r: bool)
    ensures
        r == prefix@.is_prefix_of(s@),
{
    let sv = chars_of(s);
    let pv = chars_of(prefix);
    let r = match_at(&sv, &pv, 0);
    proof {
        if pv@.len() <= sv@.len() {
            crate::stdlib::text::lemma_matches_at_subrange(sv@, pv@, 0);
        }
    }
    r
}

/// Whether `s` ends with `suffix`.
pub fn ends_with(s: &str, suffix: &str) -> (r: bool)
    ensures
        r == suffix@.is_suffix_of(s@),
{
    let sv = chars_of(s);
    let pv = chars_of(suffix);
    if pv.len() > sv.len() {
        return false;
    }
    let r = match_at(&sv, &pv, sv.len() - pv.len());
    proof {
        crate::stdlib::text::lemma_matches_at_subrange(sv@, pv@, sv@.len() - pv@.len());
    }
    r
}

/// Convert to uppercase (as `str::to_uppercase` does).
pub fn to_upper(s: &str) -> (r: String)
    ensures
        r@ == str_upper(s@),
{
    str_to_uppercase(s)
}

/// Convert to lowercase (as `str::to_lowercase` does).
pub fn to_lower(s: &str) -> (r: String)
    ensures
        r@ == str_lower(s@),
{
    str_to_lowercase(s)
}

/// The string with its first character replaced by that character's uppercase form.
pub open spec fn capitalize_seq(s: Seq<char>) -> Seq<char> {
    if s.len() == 0 {
        Seq::empty()
    } else {
        char_upper(s[0]) + s.drop_first()
    }
}

/// Capitalize the first letter.
pub fn capitalize(s: &str) -> (r: String)
    ensures
        r@ == capitalize_seq(s@),
{
    let v = chars_of(s);
    if v.len() == 0 {
        return String::new();
    }
    let mut r = char_to_uppercase(v[0]);
    let mut i: usize = 1;
    while i < v.len()
        invariant
            1 <= i <= v.len(),
            r@ == char_upper(v@[0]) + v@.subrange(1, i as int),
        decreases v.len() - i,
    {
        r.push(v[i]);
        assert(v@.subrange(1, i + 1) =~= v@.subrange(1, i as int).push(v@[i as int]));
        i += 1;
    }
    assert(v@.subrange(1, v.len() as int) =~= v@.drop_first());
    r
}

/// `s` with its leading whitespace removed.
pub open spec fn trim_start_seq(s: Seq<char>) -> Seq<char>
    decreases s.len(),
{
    if s.len() > 0 && is_ws(s[0]) {
        trim_start_seq(s.drop_first())
    } else {
        s
    }
}

/// `s` with its trailing whitespace removed.
pub open spec fn trim_end_seq(s: Seq<char>) -> Seq<char>
    decreases s.len(),
{
    if s.len() > 0 && is_ws(s.last()) {
        trim_end_seq(s.drop_last())
    } else {
        s
    }
}

/// `s` with leading and trailing whitespace removed.
pub open spec fn trim_seq(s: Seq<char>) -> Seq<char> {
    trim_end_seq(trim_start_seq(s))
}

/// Index of the first non-whitespace character of `v` at or after `from`, together
/// with the fact that skipping to it trims the same as skipping to `from`.
fn skip_leading_ws(v: &Vec<char>, from: usize) -> (r: usize)
    requires
        from <= v.len(),
    ensures
        from <= r <= v.len(),
        trim_start_seq(v@.skip(from as int)) == v@.skip(r as int),
        forall|k: int| from <= k < r ==> is_ws(#[trigger] v@[k]),
        r < v.len() ==> !is_ws(v@[r as int]),
{
    let mut i = from;
    while i < v.len() && is_whitespace(v[i])
        invariant
            from <= i <= v.len(),
            trim_start_seq(v@.skip(from as int)) == trim_start_seq(v@.skip(i as int)),
            forall|k: int| from <= k < i ==> is_ws(#[trigger] v@[k]),
        decreases v.len() - i,
    {
        assert(v@.skip(i as int).drop_first() =~= v@.skip(i + 1));
        assert(v@.skip(i as int)[0] == v@[i as int]);
        i += 1;
    }
    if i < v.len() {
        assert(v@.skip(i as int)[0] == v@[i as int]);
    }
    i
}

/// Index just past the last non-whitespace character of `v` before `to`.
fn skip_trailing_ws(v: &Vec<char>, lo: usize, to: usize) -> (r: usize)
    requires
        lo <= to <= v.len(),
    ensures
        lo <= r <= to,
        trim_end_seq(v@.subrange(lo as int, to as int)) == v@.subrange(lo as int, r as int),
        forall|k: int| r <= k < to ==> is_ws(#[trigger] v@[k]),
        r > lo ==> !is_ws(v@[r - 1]),
{
    let mut j = to;
    while j > lo && is_whitespace(v[j - 1])
        invariant
            lo <= j <= to,
            to <= v.len(),
            trim_end_seq(v@.subrange(lo as int, to as int)) == trim_end_seq(
                v@.subrange(lo as int, j as int),
            ),
            forall|k: int| j <= k < to ==> is_ws(#[trigger] v@[k]),
        decreases j - lo,
    {
        assert(v@.subrange(lo as int, j as int).drop_last() =~= v@.subrange(lo as int, j - 1));
        assert(v@.subrange(lo as int, j as int).last() == v@[j - 1]);
        j -= 1;
    }
    if j > lo {
        assert(v@.subrange(lo as int, j as int).last() == v@[j - 1]);
    }
    j
}

/// The characters `v[lo..hi]` as a string.
fn string_of_range(v: &Vec<char>, lo: usize, hi: usize) -> (r: String)
    requires
        lo <= hi <= v.len(),
    ensures
        r@ == v@.subrange(lo as int, hi as int),
{
    let mut r = String::new();
    let mut i = lo;
    while i < hi
        invariant
            lo <= i <= hi,
            hi <= v.len(),
            r@ == v@.subrange(lo as int, i as int),
        decreases hi - i,
    {
        r.push(v[i]);
        assert(v@.subrange(lo as int, i + 1) =~= v@.subrange(lo as int, i as int).push(v@[i as int]));
        i += 1;
    }
    r
}

/// Trim whitespace from both ends.
pub fn trim(s: &str) -> (r: String)
    ensures
        r@ == trim_seq(s@),
{
    let v = chars_of(s);
    let lo = skip_leading_ws(&v, 0);
    assert(v@.skip(0) =~= v@);
    let hi = skip_trailing_ws(&v, lo, v.len());
    assert(v@.subrange(lo as int, v.len() as int) =~= v@.skip(lo as int));
    string_of_range(&v, lo, hi)
}

/// Trim whitespace from the start.
pub fn trim_start(s: &str) -> (r: String)
    ensures
        r@ == trim_start_seq(s@),
{
    let v = chars_of(s);
    let lo = skip_leading_ws(&v, 0);
    assert(v@.skip(0) =~= v@);
    assert(v@.subrange(lo as int, v.len() as int) =~= v@.skip(lo as int));
    string_of_range(&v, lo, v.len())
}

/// Trim whitespace from the end.
pub fn trim_end(s: &str) -> (r: String)
    ensures
        r@ == trim_end_seq(s@),
{
    let v = chars_of(s);
    let hi = skip_trailing_ws(&v, 0, v.len());
    assert(v@.subrange(0, v.len() as int) =~= v@);
    string_of_range(&v, 0, hi)
}

/// `n` copies of the character `c`.
pub open spec fn repeat_char(c: char, n: nat) -> Seq<char> {
    Seq::new(n, |i: int| c)
}

/// Pad the start with `pad_char` until the string is `target_len` bytes long (UTF-8
/// bytes are counted, one `pad_char` per missing byte). The byte length of a string
/// always fits in a `usize`.
pub fn pad_start(s: &str, target_len: usize, pad_char: char) -> (r: String)
    requires
        encode_utf8(s@).len() <= usize::MAX,
    ensures
        r@ == if encode_utf8(s@).len() >= target_len {
            s@
        } else {
            repeat_char(pad_char, (target_len - encode_utf8(s@).len()) as nat) + s@
        },
{
    let v = chars_of(s);
    let n = s.len();
    if n >= target_len {
        return string_of(&v);
    }
    let missing = target_len - n;
    let mut r = String::new();
    let mut i: usize = 0;
    while i < missing
        invariant
            i <= missing,
            r@ == repeat_char(pad_char, i as nat),
        decreases missing - i,
    {
        r.push(pad_char);
        assert(repeat_char(pad_char, (i + 1) as nat) =~= repeat_char(pad_char, i as nat).push(pad_char));
        i += 1;
    }
    let mut j: usize = 0;
    while j < v.len()
        invariant
            j <= v.len(),
            r@ == repeat_char(pad_char, missing as nat) + v@.take(j as int),
        decreases v.len() - j,
    {
        r.push(v[j]);
        assert(v@.take(j + 1) =~= v@.take(j as int).push(v@[j as int]));
        j += 1;
    }
    assert(v@.take(v.len() as int) =~= v@);
    r
}

/// Pad the end with `pad_char` until the string is `target_len` bytes long (UTF-8
/// bytes are counted, one `pad_char` per missing byte). The byte length of a string
/// always fits in a `usize`.
pub fn pad_end(s: &str, target_len: usize, pad_char: char) -> (r: String)
    requires
        encode_utf8(s@).len() <= usize::MAX,
    ensures
        r@ == if encode_utf8(s@).len() >= target_len {
            s@
        } else {
            s@ + repeat_char(pad_char, (target_len - encode_utf8(s@).len()) as nat)
        },
{
    let v = chars_of(s);
    let n = s.len();
    let mut r = string_of(&v);
    if n >= target_len {
        return r;
    }
    let missing = target_len - n;
    let mut i: usize = 0;
    while i < missing
        invariant
            i <= missing,
            r@ == v@ + repeat_char(pad_char, i as nat),
        decreases missing - i,
    {
        r.push(pad_char);
        assert(repeat_char(pad_char, (i + 1) as nat) =~= repeat_char(pad_char, i as nat).push(pad_char));
        assert(v@ + repeat_char(pad_char, (i + 1) as nat) =~= (v@ + repeat_char(pad_char, i as nat)).push(pad_char));
        i += 1;
    }
    r
}

/// `n` copies of `s` one after the other.
pub open spec fn repeat_seq(s: Seq<char>, n: nat) -> Seq<char>
    decreases n,
{
    if n == 0 {
        Seq::empty()
    } else {
        repeat_seq(s, (n - 1) as nat) + s
    }
}

/// Repeat the string `n` times. (The byte length of the result must fit in a `usize`;
/// `str::repeat` panics on capacity overflow.)
pub fn repeat(s: &str, n: usize) -> (r: String)
    requires
        encode_utf8(s@).len() * n <= usize::MAX,
    ensures
        r@ == repeat_seq(s@, n as nat),
{
    let v = chars_of(s);
    let mut r = String::new();
    let mut k: usize = 0;
    while k < n
        invariant
            k <= n,
            r@ == repeat_seq(v@, k as nat),
        decreases n - k,
    {
        let mut j: usize = 0;
        let ghost base = r@;
        while j < v.len()
            invariant
                j <= v.len(),
                r@ == base + v@.take(j as int),
            decreases v.len() - j,
        {
            r.push(v[j]);
            assert(v@.take(j + 1) =~= v@.take(j as int).push(v@[j as int]));
            assert(base + v@.take(j + 1) =~= (base + v@.take(j as int)).push(v@[j as int]));
            j += 1;
        }
        assert(v@.take(v.len() as int) =~= v@);
        k += 1;
    }
    r
}

/// Reverse a string (character by character).
pub fn reverse(s: &str) -> (r: String)
    ensures
        r@ == s@.reverse(),
{
    let v = chars_of(s);
    let mut r = String::new();
    let mut i: usize = v.len();
    while i > 0
        invariant
            i <= v.len(),
            r@ == v@.subrange(i as int, v.len() as int).reverse(),
        decreases i,
    {
        r.push(v[i - 1]);
        assert(v@.subrange(i - 1, v.len() as int).reverse() =~= v@.subrange(
            i as int,
            v.len() as int,
        ).reverse().push(v@[i - 1]));
        i -= 1;
    }
    assert(v@.subrange(0, v.len() as int) =~= v@);
    r
}

/// Whether the string is empty.
pub fn is_empty(s: &str) -> (r: bool)
    ensures
        r == (s@.len() == 0),
{
    s.is_empty()
}

/// Whether the string consists of whitespace only (true for the empty string).
pub fn is_blank(s: &str) -> (r: bool)
    ensures
        r == (forall|i: int| 0 <= i < s@.len() ==> is_ws(#[trigger] s@[i])),
        r == (trim_seq(s@).len() == 0),
{
    let v = chars_of(s);
    let lo = skip_leading_ws(&v, 0);
    assert(v@.skip(0) =~= v@);
    proof {
        if lo == v.len() {
            assert(v@.skip(lo as int) =~= Seq::<char>::empty());
        } else {
            let t = v@.skip(lo as int);
            assert(t[0] == v@[lo as int]);
            assert(!is_ws(t[0]));
            lemma_trim_end_keeps_non_ws_tail(t);
        }
    }
    lo == v.len()
}

/// Trimming the end of a sequence that starts with a non-whitespace character leaves
/// a non-empty sequence.
proof fn lemma_trim_end_keeps_non_ws_tail(t: Seq<char>)
    requires
        t.len() > 0,
        !is_ws(t[0]),
    ensures
        trim_end_seq(t).len() > 0,
    decreases t.len(),
{
    if is_ws(t.last()) {
        assert(t.len() > 1);
        assert(t.drop_last()[0] == t[0]);
        lemma_trim_end_keeps_non_ws_tail(t.drop_last());
    }
}

/// Whether the string is non-empty and all ASCII digits.
pub fn is_digit(s: &str) -> (r: bool)
    ensures
        r == (s@.len() > 0 && forall|i: int| 0 <= i < s@.len() ==> is_ascii_digit_char(#[trigger] s@[i])),
{
    let v = chars_of(s);
    if v.len() == 0 {
        return false;
    }
    let mut i: usize = 0;
    while i < v.len()
        invariant
            i <= v.len(),
            v@ == s@,
            forall|k: int| 0 <= k < i ==> is_ascii_digit_char(#[trigger] v@[k]),
        decreases v.len() - i,
    {
        if !('0' <= v[i] && v[i] <= '9') {
            return false;
        }
        i += 1;
    }
    true
}

/// Whether the string is non-empty and every character is alphabetic.
pub fn is_alpha(s: &str) -> (r: bool)
    ensures
        r == (s@.len() > 0 && forall|i: int| 0 <= i < s@.len() ==> alphabetic(#[trigger] s@[i])),
{
    let v = chars_of(s);
    if v.len() == 0 {
        return false;
    }
    let mut i: usize = 0;
    while i < v.len()
        invariant
            i <= v.len(),
            v@ == s@,
            forall|k: int| 0 <= k < i ==> alphabetic(#[trigger] v@[k]),
        decreases v.len() - i,
    {
        if !char_is_alphabetic(v[i]) {
            return false;
        }
        i += 1;
    }
    true
}

/// Whether the string is non-empty and every character is alphanumeric.
pub fn is_alnum(s: &str) -> (r: bool)
    ensures
        r == (s@.len() > 0 && forall|i: int| 0 <= i < s@.len() ==> alphanumeric(#[trigger] s@[i])),
{
    let v = chars_of(s);
    if v.len() == 0 {
        return false;
    }
    let mut i: usize = 0;
    while i < v.len()
        invariant
            i <= v.len(),
            v@ == s@,
            forall|k: int| 0 <= k < i ==> alphanumeric(#[trigger] v@[k]),
        decreases v.len() - i,
    {
        if !char_is_alphanumeric(v[i]) {
            return false;
        }
        i += 1;
    }
    true
}

/// The characters from position `start` up to (not including) `end`, clipped to the string.
pub open spec fn substring_seq(s: Seq<char>, start: int, end: int) -> Seq<char> {
    let lo = if start <= s.len() { start } else { s.len() as int };
    let hi = if end <= start { lo } else if end <= s.len() { end } else { s.len() as int };
    s.subrange(lo, hi)
}

/// Substring by character positions `[start, end)`, clipped to the string.
pub fn substring(s: &str, start: usize, end: usize) -> (r: String)
    ensures
        r@ == substring_seq(s@, start as int, end as int),
{
    let v = chars_of(s);
    let lo = if start <= v.len() {
        start
    } else {
        v.len()
    };
    let hi = if end <= start {
        lo
    } else if end <= v.len() {
        end
    } else {
        v.len()
    };
    string_of_range(&v, lo, hi)
}

/// The character at position `index`, if there is one.
pub fn char_at(s: &str, index: usize) -> (r: Option<char>)
    ensures
        r == if index < s@.len() { Some(s@[index as int]) } else { None::<char> },
{
    let v = chars_of(s);
    if index < v.len() {
        Some(v[index])
    } else {
        None
    }
}

/// String length in characters (not bytes).
pub fn char_count(s: &str) -> (r: usize)
    ensures
        r == s@.len(),
{
    let v = chars_of(s);
    v.len()
}


/// The leftmost position at or after `i` where `p` occurs in `s`.
pub open spec fn find_from(s: Seq<char>, p: Seq<char>, i: int) -> Option<int>
    decreases s.len() - i,
{
    if i < 0 || i + p.len() > s.len() {
        None
    } else if matches_at(s, p, i) {
        Some(i)
    } else {
        find_from(s, p, i + 1)
    }
}

/// Searching from a position where there is no occurrence is searching from the next one.
proof fn lemma_find_from_step(s: Seq<char>, p: Seq<char>, i: int)
    requires
        0 <= i,
        i + p.len() <= s.len(),
        !matches_at(s, p, i),
    ensures
        find_from(s, p, i) == find_from(s, p, i + 1),
{
}

/// A found position is an occurrence, and there is none before it from `i` on.
proof fn lemma_find_from_sound(s: Seq<char>, p: Seq<char>, i: int)
    requires
        0 <= i,
    ensures
        find_from(s, p, i) matches Some(k) ==> i <= k && matches_at(s, p, k) && forall|j: int|
            i <= j < k ==> !matches_at(s, p, j),
        find_from(s, p, i) is None ==> forall|j: int| i <= j ==> !matches_at(s, p, j),
    decreases s.len() - i,
{
    if i + p.len() <= s.len() && !matches_at(s, p, i) {
        lemma_find_from_sound(s, p, i + 1);
    }
}

/// Whether `sub` occurs in `s` (the empty string occurs everywhere).
pub fn contains(s: &str, sub: &str) -> (r: bool)
    ensures
        r == (exists|i: int| matches_at(s@, sub@, i)),
{
    let v = chars_of(s);
    let p = chars_of(sub);
    if p.len() > v.len() {
        assert forall|i: int| !matches_at(s@, sub@, i) by {}
        return false;
    }
    let mut i: usize = 0;
    while i <= v.len() - p.len()
        invariant
            p.len() <= v.len(),
            i <= v.len() - p.len() + 1,
            v@ == s@,
            p@ == sub@,
            forall|j: int| 0 <= j < i ==> !matches_at(s@, sub@, j),
        decreases v.len() - p.len() + 1 - i,
    {
        if match_at(&v, &p, i) {
            return true;
        }
        i += 1;
    }
    assert forall|j: int| !matches_at(s@, sub@, j) by {
        if 0 <= j < i {
        }
    }
    false
}

/// Byte index of the first occurrence of `sub` in `s`, or -1 when there is none.
/// (The byte length of a string always fits in an `isize`.)
pub fn index_of(s: &str, sub: &str) -> (r: i64)
    requires
        encode_utf8(s@).len() <= i64::MAX,
    ensures
        r == match find_from(s@, sub@, 0) {
            Some(i) => encode_utf8(s@.take(i)).len() as int,
            None => -1,
        },
{
    let v = chars_of(s);
    let p = chars_of(sub);
    if p.len() > v.len() {
        return -1;
    }
    let mut i: usize = 0;
    let mut bytes: i64 = 0;
    assert(v@.take(0) =~= Seq::<char>::empty());
    while i <= v.len() - p.len()
        invariant
            p.len() <= v.len(),
            i <= v.len() - p.len() + 1,
            v@ == s@,
            p@ == sub@,
            encode_utf8(s@).len() <= i64::MAX,
            find_from(s@, sub@, 0) == find_from(s@, sub@, i as int),
            bytes == encode_utf8(v@.take(i as int)).len(),
        decreases v.len() - p.len() + 1 - i,
    {
        if match_at(&v, &p, i) {
            return bytes;
        }
        proof {
            lemma_find_from_step(s@, sub@, i as int);
            lemma_encode_utf8_push_len(v@.take(i as int), v@[i as int]);
            assert(v@.take(i + 1) =~= v@.take(i as int).push(v@[i as int]));
            crate::stdlib::text::lemma_encode_utf8_append(v@.take(i + 1), v@.skip(i + 1));
            assert(v@.take(i + 1) + v@.skip(i + 1) =~= v@);
        }
        bytes = bytes + char_width(v[i]) as i64;
        i += 1;
    }
    -1
}

/// Number of non-overlapping occurrences of `p` in `s` from position `i` on, counted
/// left to right; an empty `p` occurs at every character boundary.
pub open spec fn count_from(s: Seq<char>, p: Seq<char>, i: int) -> nat
    decreases s.len() - i,
{
    if i < 0 || i > s.len() {
        0
    } else if p.len() == 0 {
        (s.len() - i + 1) as nat
    } else if i + p.len() > s.len() {
        0
    } else if matches_at(s, p, i) {
        1 + count_from(s, p, i + p.len())
    } else {
        count_from(s, p, i + 1)
    }
}

/// Count the non-overlapping occurrences of `sub` (each character boundary for an
/// empty `sub`). (A string's character count is always below `usize::MAX`.)
pub fn count(s: &str, sub: &str) -> (r: usize)
    requires
        s@.len() < usize::MAX,
    ensures
        r == count_from(s@, sub@, 0),
{
    let v = chars_of(s);
    let p = chars_of(sub);
    if p.len() == 0 {
        return v.len() + 1;
    }
    let mut n: usize = 0;
    let mut i: usize = 0;
    while i < v.len()
        invariant
            i <= v.len(),
            p.len() > 0,
            v@ == s@,
            p@ == sub@,
            n <= i,
            n + count_from(s@, sub@, i as int) == count_from(s@, sub@, 0),
        decreases v.len() - i,
    {
        if match_at(&v, &p, i) {
            n += 1;
            i += p.len();
        } else {
            i += 1;
        }
    }
    n
}

/// `s` from position `i` on, with every non-overlapping occurrence of `p` (found left
/// to right) replaced by `t`; an empty `p` puts `t` at every character boundary.
pub open spec fn replace_from(s: Seq<char>, p: Seq<char>, t: Seq<char>, i: int) -> Seq<char>
    decreases s.len() - i,
{
    if i < 0 || i > s.len() {
        Seq::empty()
    } else if p.len() == 0 {
        if i == s.len() {
            t
        } else {
            t.push(s[i]) + replace_from(s, p, t, i + 1)
        }
    } else if i + p.len() > s.len() {
        s.skip(i)
    } else if matches_at(s, p, i) {
        t + replace_from(s, p, t, i + p.len())
    } else {
        seq![s[i]] + replace_from(s, p, t, i + 1)
    }
}

/// Append the characters of `t` to `r`.
fn push_all(r: &mut String, t: &Vec<char>)
    ensures
        final(r)@ == old(r)@ + t@,
{
    let mut j: usize = 0;
    while j < t.len()
        invariant
            j <= t.len(),
            r@ == old(r)@ + t@.take(j as int),
        decreases t.len() - j,
    {
        r.push(t[j]);
        assert(old(r)@ + t@.take(j + 1) =~= (old(r)@ + t@.take(j as int)).push(t@[j as int]));
        j += 1;
    }
    assert(t@.take(t.len() as int) =~= t@);
}

/// Replace all occurrences.
pub fn replace(s: &str, from: &str, to: &str) -> (r: String)
    ensures
        r@ == replace_from(s@, from@, to@, 0),
{
    let v = chars_of(s);
    let p = chars_of(from);
    let t = chars_of(to);
    let mut r = String::new();
    let mut i: usize = 0;
    if p.len() == 0 {
        while i < v.len()
            invariant
                i <= v.len(),
                p@.len() == 0,
                v@ == s@,
                p@ == from@,
                t@ == to@,
                r@ + replace_from(s@, from@, to@, i as int) == replace_from(s@, from@, to@, 0),
            decreases v.len() - i,
        {
            let ghost before = r@;
            push_all(&mut r, &t);
            r.push(v[i]);
            assert(before + replace_from(s@, from@, to@, i as int) =~= r@ + replace_from(
                s@,
                from@,
                to@,
                i + 1,
            ));
            i += 1;
        }
        push_all(&mut r, &t);
        return r;
    }
    while i < v.len()
        invariant
            i <= v.len(),
            p@.len() > 0,
            v@ == s@,
            p@ == from@,
            t@ == to@,
            r@ + replace_from(s@, from@, to@, i as int) == replace_from(s@, from@, to@, 0),
        decreases v.len() - i,
    {
        let ghost before = r@;
        if match_at(&v, &p, i) {
            push_all(&mut r, &t);
            assert(before + replace_from(s@, from@, to@, i as int) =~= r@ + replace_from(
                s@,
                from@,
                to@,
                i + p.len(),
            ));
            i += p.len();
        } else {
            if p.len() > v.len() - i {
                proof {
                    let rest = replace_from(s@, from@, to@, i as int);
                    assert(rest == s@.skip(i as int));
                    let rest2 = replace_from(s@, from@, to@, i + 1);
                    if i + 1 + p.len() > v.len() {
                        assert(rest2 == s@.skip(i + 1));
                    } else {
                        assert(false);
                    }
                    assert(s@.skip(i as int) =~= seq![s@[i as int]] + s@.skip(i + 1));
                }
            }
            r.push(v[i]);
            assert(before + replace_from(s@, from@, to@, i as int) =~= r@ + replace_from(
                s@,
                from@,
                to@,
                i + 1,
            ));
            i += 1;
        }
    }
    assert(replace_from(s@, from@, to@, i as int) =~= Seq::<char>::empty()) by {
        if i + p.len() > v.len() {
            assert(s@.skip(i as int) =~= Seq::<char>::empty());
        }
    }
    assert(r@ + Seq::<char>::empty() =~= r@);
    r
}

/// `s` with its first occurrence of `p` (if any) replaced by `t`.
pub open spec fn replace_first_seq(s: Seq<char>, p: Seq<char>, t: Seq<char>) -> Seq<char> {
    match find_from(s, p, 0) {
        Some(i) => s.take(i) + t + s.skip(i + p.len()),
        None => s,
    }
}

/// The leftmost position where `p` occurs in `v`.
fn find_index(v: &Vec<char>, p: &Vec<char>) -> (r: Option<usize>)
    ensures
        match r {
            Some(i) => find_from(v@, p@, 0) == Some(i as int),
            None => find_from(v@, p@, 0) is None,
        },
{
    if p.len() > v.len() {
        return None;
    }
    let mut i: usize = 0;
    while i <= v.len() - p.len()
        invariant
            p.len() <= v.len(),
            i <= v.len() - p.len() + 1,
            find_from(v@, p@, 0) == find_from(v@, p@, i as int),
        decreases v.len() - p.len() + 1 - i,
    {
        if match_at(&v, &p, i) {
            return Some(i);
        }
        proof {
            lemma_find_from_step(v@, p@, i as int);
        }
        i += 1;
    }
    None
}

/// The text of `s` before the first occurrence of `d` (all of `s` when there is none).
pub open spec fn before_first_seq(s: Seq<char>, d: Seq<char>) -> Seq<char> {
    match find_from(s, d, 0) {
        Some(k) => s.take(k),
        None => s,
    }
}

/// The text of `s` before the first occurrence of `d` (all of `s` when there is none).
pub fn before_first(s: &str, d: &str) -> (r: String)
    ensures
        r@ == before_first_seq(s@, d@),
{
    let v = chars_of(s);
    let p = chars_of(d);
    match find_index(&v, &p) {
        Some(k) => {
            proof {
                lemma_find_from_sound(s@, d@, 0);
            }
            assert(v@.subrange(0, k as int) =~= v@.take(k as int));
            string_of_range(&v, 0, k)
        },
        None => string_of(&v),
    }
}

/// Replace the first occurrence.
pub fn replace_first(s: &str, from: &str, to: &str) -> (r: String)
    ensures
        r@ == replace_first_seq(s@, from@, to@),
{
    let v = chars_of(s);
    let p = chars_of(from);
    let t = chars_of(to);
    let found = find_index(&v, &p);
    match found {
        Some(i) => {
            proof {
                lemma_find_from_sound(s@, from@, 0);
            }
            let mut r = string_of_range(&v, 0, i);
            push_all(&mut r, &t);
            let rest = string_of_range(&v, i + p.len(), v.len());
            let rv = chars_of(rest.as_str());
            push_all(&mut r, &rv);
            assert(v@.subrange(0, i as int) =~= v@.take(i as int));
            assert(v@.subrange(i + p.len(), v.len() as int) =~= v@.skip(i + p.len()));
            r
        },
        None => string_of(&v),
    }
}


/// The contents of a sequence of strings.
pub open spec fn string_views(v: Seq<String>) -> Seq<Seq<char>> {
    v.map_values(|x: String| x@)
}

/// The pieces of `s` from position `i` on, between the non-overlapping occurrences of a
/// non-empty delimiter `d` found left to right; `cur` is the piece begun before `i`.
pub open spec fn split_from(s: Seq<char>, d: Seq<char>, i: int, cur: Seq<char>) -> Seq<Seq<char>>
    decreases s.len() - i,
{
    if i < 0 || i >= s.len() || d.len() == 0 {
        seq![cur]
    } else if matches_at(s, d, i) {
        seq![cur] + split_from(s, d, i + d.len(), Seq::empty())
    } else {
        split_from(s, d, i + 1, cur.push(s[i]))
    }
}

/// The pieces `str::split` yields: with a non-empty delimiter, the text between its
/// occurrences; with an empty one, an empty piece, each character, and an empty piece.
pub open spec fn split_seq(s: Seq<char>, d: Seq<char>) -> Seq<Seq<char>> {
    if d.len() == 0 {
        seq![Seq::<char>::empty()] + s.map_values(|c: char| seq![c]) + seq![Seq::<char>::empty()]
    } else {
        split_from(s, d, 0, Seq::empty())
    }
}

/// Split a string by a delimiter.
pub fn split(s: &str, delimiter: &str) -> (r: Vec<String>)
    ensures
        string_views(r@) == split_seq(s@, delimiter@),
{
    let v = chars_of(s);
    let d = chars_of(delimiter);
    let mut result: Vec<String> = Vec::new();
    if d.len() == 0 {
        result.push(String::new());
        let mut i: usize = 0;
        while i < v.len()
            invariant
                i <= v.len(),
                v@ == s@,
                string_views(result@) == seq![Seq::<char>::empty()] + v@.take(i as int).map_values(
                    |c: char| seq![c],
                ),
            decreases v.len() - i,
        {
            let ghost before = string_views(result@);
            let mut one = String::new();
            one.push(v[i]);
            assert(one@ =~= seq![v@[i as int]]);
            result.push(one);
            assert(string_views(result@) =~= before.push(seq![v@[i as int]]));
            assert(v@.take(i + 1) =~= v@.take(i as int).push(v@[i as int]));
            assert(v@.take(i + 1).map_values(|c: char| seq![c]) =~= v@.take(i as int).map_values(
                |c: char| seq![c],
            ).push(seq![v@[i as int]]));
            assert(string_views(result@) =~= seq![Seq::<char>::empty()] + v@.take(i + 1).map_values(
                |c: char| seq![c],
            ));
            i += 1;
        }
        result.push(String::new());
        assert(v@.take(v.len() as int) =~= v@);
        assert(string_views(result@) =~= split_seq(s@, delimiter@));
        return result;
    }
    let mut cur = String::new();
    let mut i: usize = 0;
    assert(string_views(result@) =~= Seq::<Seq<char>>::empty());
    while i < v.len()
        invariant
            i <= v.len(),
            d@.len() > 0,
            v@ == s@,
            d@ == delimiter@,
            string_views(result@) + split_from(s@, delimiter@, i as int, cur@) == split_from(
                s@,
                delimiter@,
                0,
                Seq::empty(),
            ),
        decreases v.len() - i,
    {
        let ghost before = string_views(result@);
        if match_at(&v, &d, i) {
            let piece = cur;
            cur = String::new();
            result.push(piece);
            assert(string_views(result@) =~= before.push(piece@));
            assert(before + split_from(s@, delimiter@, i as int, piece@) =~= string_views(result@)
                + split_from(s@, delimiter@, i + d.len(), cur@));
            i += d.len();
        } else {
            cur.push(v[i]);
            i += 1;
        }
    }
    let ghost before = string_views(result@);
    let last = cur;
    result.push(last);
    assert(string_views(result@) =~= before.push(last@));
    assert(string_views(result@) =~= split_seq(s@, delimiter@));
    result
}

/// `c` without one trailing carriage return.
pub open spec fn strip_cr(c: Seq<char>) -> Seq<char> {
    if c.len() > 0 && c.last() == '\r' {
        c.drop_last()
    } else {
        c
    }
}

/// The lines of `s` from position `i` on (`cur` is the line begun before `i`): lines
/// end at `'\n'`, a `'\r'` just before it is dropped, and a trailing empty line is not
/// a line.
pub open spec fn lines_from(s: Seq<char>, i: int, cur: Seq<char>) -> Seq<Seq<char>>
    decreases s.len() - i,
{
    if i < 0 || i >= s.len() {
        if cur.len() == 0 {
            Seq::empty()
        } else {
            seq![cur]
        }
    } else if s[i] == '\n' {
        seq![strip_cr(cur)] + lines_from(s, i + 1, Seq::empty())
    } else {
        lines_from(s, i + 1, cur.push(s[i]))
    }
}

/// Split a string into lines.
pub fn lines(s: &str) -> (r: Vec<String>)
    ensures
        string_views(r@) == lines_from(s@, 0, Seq::empty()),
{
    let v = chars_of(s);
    let mut result: Vec<String> = Vec::new();
    let mut cur: Vec<char> = Vec::new();
    let mut i: usize = 0;
    assert(string_views(result@) =~= Seq::<Seq<char>>::empty());
    while i < v.len()
        invariant
            i <= v.len(),
            v@ == s@,
            string_views(result@) + lines_from(s@, i as int, cur@) == lines_from(
                s@,
                0,
                Seq::empty(),
            ),
        decreases v.len() - i,
    {
        let ghost before = string_views(result@);
        let ghost old_cur = cur@;
        if v[i] == '\n' {
            let n = cur.len();
            let line = if n > 0 && cur[n - 1] == '\r' {
                string_of_range(&cur, 0, n - 1)
            } else {
                string_of(&cur)
            };
            assert(cur@.len() > 0 ==> cur@.subrange(0, cur@.len() - 1) =~= cur@.drop_last());
            assert(line@ == strip_cr(cur@));
            result.push(line);
            assert(string_views(result@) =~= before.push(line@));
            cur = Vec::new();
            assert(before + lines_from(s@, i as int, old_cur) =~= string_views(result@) + lines_from(
                s@,
                i + 1,
                cur@,
            ));
            i += 1;
        } else {
            cur.push(v[i]);
            i += 1;
        }
    }
    if cur.len() > 0 {
        let ghost before = string_views(result@);
        let last = string_of(&cur);
        result.push(last);
        assert(string_views(result@) =~= before.push(last@));
    }
    assert(string_views(result@) =~= lines_from(s@, 0, Seq::empty()));
    result
}


/// The pieces joined with `sep` between consecutive pieces.
pub open spec fn join_seq(parts: Seq<Seq<char>>, sep: Seq<char>) -> Seq<char>
    decreases parts.len(),
{
    if parts.len() == 0 {
        Seq::empty()
    } else if parts.len() == 1 {
        parts[0]
    } else {
        join_seq(parts.drop_last(), sep) + sep + parts.last()
    }
}

/// Join strings with a separator.
pub fn join(parts: &[String], separator: &str) -> (r: String)
    ensures
        r@ == join_seq(string_views(parts@), separator@),
{
    let sep = chars_of(separator);
    let mut r = String::new();
    let mut i: usize = 0;
    assert(string_views(parts@.take(0)) =~= Seq::<Seq<char>>::empty());
    while i < parts.len()
        invariant
            i <= parts.len(),
            sep@ == separator@,
            r@ == join_seq(string_views(parts@.take(i as int)), separator@),
        decreases parts.len() - i,
    {
        if i > 0 {
            push_all(&mut r, &sep);
        }
        let piece = chars_of(parts[i].as_str());
        push_all(&mut r, &piece);
        assert(string_views(parts@.take(i + 1)).drop_last() =~= string_views(parts@.take(i as int)));
        assert(string_views(parts@.take(i + 1)).last() == parts@[i as int]@);
        if i == 0 {
            assert(r@ =~= parts@[0]@);
        }
        i += 1;
    }
    assert(parts@.take(parts.len() as int) =~= parts@);
    r
}

/// The whitespace-separated words of `s` from position `i` on (`cur` is the word begun
/// before `i`).
pub open spec fn words_from(s: Seq<char>, i: int, cur: Seq<char>) -> Seq<Seq<char>>
    decreases s.len() - i,
{
    let done: Seq<Seq<char>> = if cur.len() == 0 {
        Seq::empty()
    } else {
        seq![cur]
    };
    if i < 0 || i >= s.len() {
        done
    } else if is_ws(s[i]) {
        done + words_from(s, i + 1, Seq::empty())
    } else {
        words_from(s, i + 1, cur.push(s[i]))
    }
}

/// `s` as its words, each capitalized, joined by single spaces.
pub open spec fn title_case_seq(s: Seq<char>) -> Seq<char> {
    join_seq(words_from(s, 0, Seq::empty()).map_values(|w: Seq<char>| capitalize_seq(w)), seq![' '])
}

/// Append one capitalized word, with a space before it unless it is the first.
fn push_title_word(
    r: &mut String,
    word: &Vec<char>,
    first: bool,
    done: Ghost<Seq<Seq<char>>>,
)
    requires
        word@.len() > 0,
        first == (done@.len() == 0),
        old(r)@ == join_seq(done@.map_values(|w: Seq<char>| capitalize_seq(w)), seq![' ']),
    ensures
        final(r)@ == join_seq(
            done@.push(word@).map_values(|w: Seq<char>| capitalize_seq(w)),
            seq![' '],
        ),
{
    let ghost caps = done@.map_values(|w: Seq<char>| capitalize_seq(w));
    let ghost caps2 = done@.push(word@).map_values(|w: Seq<char>| capitalize_seq(w));
    assert(caps2.drop_last() =~= caps);
    assert(caps2.last() == capitalize_seq(word@));
    if !first {
        r.push(' ');
    }
    let head = char_to_uppercase(word[0]);
    let hv = chars_of(head.as_str());
    push_all(r, &hv);
    let tail = string_of_range(word, 1, word.len());
    let tv = chars_of(tail.as_str());
    push_all(r, &tv);
    assert(word@.subrange(1, word@.len() as int) =~= word@.drop_first());
    proof {
        if first {
            assert(caps =~= Seq::<Seq<char>>::empty());
            assert(caps2.len() == 1);
            assert(r@ =~= caps2[0]);
        } else {
            assert(r@ =~= join_seq(caps, seq![' ']) + seq![' '] + caps2.last());
        }
    }
}


/// Title case: capitalize each whitespace-separated word and join the words with
/// single spaces.
pub fn title_case(s: &str) -> (r: String)
    ensures
        r@ == title_case_seq(s@),
{
    let v = chars_of(s);
    let mut r = String::new();
    let mut cur: Vec<char> = Vec::new();
    let ghost mut done: Seq<Seq<char>> = Seq::empty();
    let mut first = true;
    let mut i: usize = 0;
    assert(done.map_values(|w: Seq<char>| capitalize_seq(w)) =~= Seq::<Seq<char>>::empty());
    while i < v.len()
        invariant
            i <= v.len(),
            v@ == s@,
            done + words_from(s@, i as int, cur@) == words_from(s@, 0, Seq::empty()),
            first == (done.len() == 0),
            r@ == join_seq(done.map_values(|w: Seq<char>| capitalize_seq(w)), seq![' ']),
        decreases v.len() - i,
    {
        let ghost old_cur = cur@;
        if is_whitespace(v[i]) {
            if cur.len() > 0 {
                push_title_word(&mut r, &cur, first, Ghost(done));
                first = false;
                proof {
                    assert(done + words_from(s@, i as int, old_cur) =~= done.push(old_cur)
                        + words_from(s@, i + 1, Seq::empty()));
                    done = done.push(old_cur);
                }
                cur = Vec::new();
            } else {
                assert(done + words_from(s@, i as int, old_cur) =~= done + words_from(
                    s@,
                    i + 1,
                    Seq::empty(),
                ));
                assert(cur@ =~= Seq::<char>::empty());
            }
        } else {
            cur.push(v[i]);
        }
        i += 1;
    }
    if cur.len() > 0 {
        push_title_word(&mut r, &cur, first, Ghost(done));
                first = false;
        proof {
            assert(done + words_from(s@, i as int, cur@) =~= done.push(cur@));
            done = done.push(cur@);
        }
    } else {
        assert(done + words_from(s@, i as int, cur@) =~= done);
    }
    r
}


/// Joining a piece in front of at least one more piece puts the separator after it.
proof fn lemma_join_prepend(x: Seq<char>, rest: Seq<Seq<char>>, sep: Seq<char>)
    ensures
        join_seq(seq![x] + rest, sep) == if rest.len() == 0 {
            x
        } else {
            x + sep + join_seq(rest, sep)
        },
    decreases rest.len(),
{
    let all = seq![x] + rest;
    if rest.len() == 0 {
        assert(all =~= seq![x]);
        assert(all.len() == 1);
        assert(all[0] == x);
        assert(join_seq(all, sep) == all[0]);
    } else if rest.len() == 1 {
        assert(all.drop_last() =~= seq![x]);
        assert(all.last() == rest[0]);
        assert(join_seq(all.drop_last(), sep) == x);
        assert(join_seq(all, sep) == join_seq(all.drop_last(), sep) + sep + all.last());
        assert(join_seq(rest, sep) == rest[0]);
    } else {
        lemma_join_prepend(x, rest.drop_last(), sep);
        assert(all.drop_last() =~= seq![x] + rest.drop_last());
        assert(all.last() == rest.last());
        assert(join_seq(all, sep) == join_seq(all.drop_last(), sep) + sep + all.last());
        assert(join_seq(rest, sep) == join_seq(rest.drop_last(), sep) + sep + rest.last());
        assert(x + sep + join_seq(rest.drop_last(), sep) + sep + rest.last() =~= x + sep + (
        join_seq(rest.drop_last(), sep) + sep + rest.last()));
    }
}

/// Splitting always yields at least one piece.
proof fn lemma_split_from_nonempty(s: Seq<char>, d: Seq<char>, i: int, cur: Seq<char>)
    ensures
        split_from(s, d, i, cur).len() >= 1,
    decreases s.len() - i,
{
    if i < 0 || i >= s.len() || d.len() == 0 {
    } else if matches_at(s, d, i) {
        lemma_split_from_nonempty(s, d, i + d.len(), Seq::empty());
    } else {
        lemma_split_from_nonempty(s, d, i + 1, cur.push(s[i]));
    }
}

/// Joining the pieces split off from position `i` gives back the text from `i` on.
proof fn lemma_join_split_from(s: Seq<char>, d: Seq<char>, i: int, cur: Seq<char>)
    requires
        d.len() > 0,
        0 <= i <= s.len(),
    ensures
        join_seq(split_from(s, d, i, cur), d) == cur + s.skip(i),
    decreases s.len() - i,
{
    if i >= s.len() {
        assert(split_from(s, d, i, cur) =~= seq![cur]);
        assert(cur + s.skip(i) =~= cur);
    } else if matches_at(s, d, i) {
        let rest = split_from(s, d, i + d.len(), Seq::empty());
        lemma_split_from_nonempty(s, d, i + d.len(), Seq::empty());
        lemma_join_split_from(s, d, i + d.len(), Seq::empty());
        lemma_join_prepend(cur, rest, d);
        crate::stdlib::text::lemma_matches_at_subrange(s, d, i);
        assert(Seq::<char>::empty() + s.skip(i + d.len()) =~= s.skip(i + d.len()));
        assert(s.skip(i) =~= s.subrange(i, i + d.len()) + s.skip(i + d.len()));
        assert(cur + d + s.skip(i + d.len()) =~= cur + s.skip(i));
    } else {
        lemma_join_split_from(s, d, i + 1, cur.push(s[i]));
        assert(cur.push(s[i]) + s.skip(i + 1) =~= cur + s.skip(i));
    }
}

/// With an empty separator, joining is concatenation.
proof fn lemma_join_empty_sep(parts: Seq<Seq<char>>)
    ensures
        join_seq(parts, Seq::empty()) == concat_all(parts),
    decreases parts.len(),
{
    let e = Seq::<char>::empty();
    if parts.len() == 0 {
        assert(join_seq(parts, e) == e);
        assert(concat_all(parts) == e);
    } else if parts.len() == 1 {
        assert(parts.drop_last() =~= Seq::<Seq<char>>::empty());
        assert(concat_all(parts.drop_last()) == e);
        assert(concat_all(parts) == concat_all(parts.drop_last()) + parts.last());
        assert(e + parts[0] =~= parts[0]);
        assert(join_seq(parts, e) == parts[0]);
    } else {
        lemma_join_empty_sep(parts.drop_last());
        assert(join_seq(parts, e) == join_seq(parts.drop_last(), e) + e + parts.last());
        assert(concat_all(parts) == concat_all(parts.drop_last()) + parts.last());
        assert(join_seq(parts.drop_last(), e) + e =~= join_seq(parts.drop_last(), e));
    }
}

/// One-character pieces concatenate back to the characters.
proof fn lemma_concat_singletons(s: Seq<char>)
    ensures
        concat_all(seq![Seq::<char>::empty()] + s.map_values(|c: char| seq![c])) == s,
    decreases s.len(),
{
    let e = Seq::<char>::empty();
    let parts = seq![e] + s.map_values(|c: char| seq![c]);
    if s.len() == 0 {
        assert(parts =~= seq![e]);
        assert(parts.drop_last() =~= Seq::<Seq<char>>::empty());
        assert(concat_all(parts.drop_last()) == e);
        assert(concat_all(parts) == concat_all(parts.drop_last()) + parts.last());
        assert(e + e =~= e);
    } else {
        lemma_concat_singletons(s.drop_last());
        assert(parts.drop_last() =~= seq![e] + s.drop_last().map_values(|c: char| seq![c]));
        assert(parts.last() == seq![s.last()]);
        assert(concat_all(parts) == concat_all(parts.drop_last()) + parts.last());
        assert(s.drop_last() + seq![s.last()] =~= s);
    }
}

/// Splitting by a delimiter and joining the pieces with the same delimiter gives back
/// the string that was split, for every delimiter (the empty one included).
pub proof fn lemma_join_split_roundtrip(s: Seq<char>, d: Seq<char>)
    ensures
        join_seq(split_seq(s, d), d) == s,
{
    if d.len() > 0 {
        lemma_join_split_from(s, d, 0, Seq::empty());
        assert(Seq::<char>::empty() + s.skip(0) =~= s);
    } else {
        let parts = seq![Seq::<char>::empty()] + s.map_values(|c: char| seq![c]) + seq![
            Seq::<char>::empty(),
        ];
        assert(d =~= Seq::<char>::empty());
        lemma_join_empty_sep(parts);
        lemma_concat_singletons(s);
        assert(parts.drop_last() =~= seq![Seq::<char>::empty()] + s.map_values(|c: char| seq![c]));
        assert(parts.last() =~= Seq::<char>::empty());
        assert(s + Seq::<char>::empty() =~= s);
    }
}

} // verus!
