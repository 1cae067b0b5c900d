//! Character classes and the string operations the web layer is built from.
//!
//! Everything here works on character sequences: a `&str` is read into a
//! `Vec<char>` once, the operation runs over the characters, and the result is
//! turned back into a `String`. The spec functions give each operation its
//! meaning over `Seq<char>`, which is what the contracts of the rest of the
//! library speak of.
use vstd::prelude::*;

verus! {

/// `char::is_control`: the Unicode general category Cc, which is exactly
/// U+0000..=U+001F and U+007F..=U+009F.
pub open spec fn is_control_char(c: char) -> bool {
    (c as u32) <= 0x1f || (0x7f <= (c as u32) && (c as u32) <= 0x9f)
}

/// `char::is_whitespace`: the Unicode `White_Space` property.
pub open spec fn is_ws_char(c: char) -> bool {
    let v = c as u32;
    (0x09 <= v && v <= 0x0d) || v == 0x20 || v == 0x85 || v == 0xa0 || v == 0x1680 || (0x2000
        <= v && v <= 0x200a) || v == 0x2028 || v == 0x2029 || v == 0x202f || v == 0x205f || v
        == 0x3000
}

/// `u8::is_ascii_alphanumeric` read on a character.
pub open spec fn is_ascii_alnum_char(c: char) -> bool {
    ('0' <= c && c <= '9') || ('a' <= c && c <= 'z') || ('A' <= c && c <= 'Z')
}

pub fn is_control(c: char) -> (r: bool)
    ensures
        r == is_control_char(c),
{
    let v = c as u32;
    v <= 0x1f || (0x7f <= v && v <= 0x9f)
}

pub fn is_whitespace(c: char) -> (r: bool)
    ensures
        r == is_ws_char(c),
{
    let v = c as u32;
    (0x09 <= v && v <= 0x0d) || v == 0x20 || v == 0x85 || v == 0xa0 || v == 0x1680 || (0x2000
        <= v && v <= 0x200a) || v == 0x2028 || v == 0x2029 || v == 0x202f || v == 0x205f || v
        == 0x3000
}

pub fn is_ascii_alnum(c: char) -> (r: bool)
    ensures
        r == is_ascii_alnum_char(c),
{
    ('0' <= c && c <= '9') || ('a' <= c && c <= 'z') || ('A' <= c && c <= 'Z')
}

/// Appends one character to a string with `String::push`. Trusted: vstd
/// gives `String::push` no contract; its documentation says it appends the
/// character to the end of the string, which is what this states.
#[verifier::external_body]
fn push_char(s: &mut String, c: char)
    ensures
        final(s)@ == old(s)@.push(c),
{
    s.push(c)
}

/// The characters of a string slice, in order.
pub fn chars_of(s: &str) -> (out: Vec<char>)
    ensures
        out@ == s@,
{
    let mut out: Vec<char> = Vec::new();
    for c in it: s.chars()
        invariant
            it.seq() == s@,
            out@ == it.seq().take(it.index() as int),
    {
        out.push(c);
    }
    out
}

/// A string holding exactly the given characters.
pub fn string_of(v: &[char]) -> (s: String)
    ensures
        s@ == v@,
{
    let mut s = String::new();
    let mut i: usize = 0;
    while i < v.len()
        invariant
            i <= v.len(),
            s@ == v@.take(i as int),
        decreases v.len() - i,
    {
        push_char(&mut s, v[i]);
        assert(v@.take(i as int).push(v@[i as int]) =~= v@.take(i + 1));
        i += 1;
    }
    assert(v@.take(v.len() as int) =~= v@);
    s
}

/// Copies characters `[from, to)` of a vector.
pub fn slice_chars(v: &[char], from: usize, to: usize) -> (out: Vec<char>)
    requires
        from <= to <= v.len(),
    ensures
        out@ == v@.subrange(from as int, to as int),
{
    let mut out: Vec<char> = Vec::new();
    let mut i = from;
    while i < to
        invariant
            from <= i <= to <= v.len(),
            out@ == v@.subrange(from as int, i as int),
        decreases to - i,
    {
        out.push(v[i]);
        assert(v@.subrange(from as int, i as int).push(v@[i as int]) =~= v@.subrange(
            from as int,
            i + 1,
        ));
        i += 1;
    }
    out
}

/// Appends characters to a vector.
pub fn extend_chars(out: &mut Vec<char>, more: &[char])
    ensures
        final(out)@ == old(out)@ + more@,
{
    let ghost start = out@;
    let mut i: usize = 0;
    while i < more.len()
        invariant
            i <= more.len(),
            out@ == start + more@.take(i as int),
        decreases more.len() - i,
    {
        out.push(more[i]);
        assert(start + more@.take(i as int).push(more@[i as int]) =~= start + more@.take(i + 1));
        i += 1;
    }
    assert(more@.take(more.len() as int) =~= more@);
}

/// Appends the characters of a string slice to a vector.
pub fn extend_str(out: &mut Vec<char>, more: &str)
    ensures
        final(out)@ == old(out)@ + more@,
{
    let chars = chars_of(more);
    extend_chars(out, &chars);
}

/// The sequence with leading whitespace removed.
pub open spec fn trim_start_seq(s: Seq<char>) -> Seq<char>
    decreases s.len(),
{
    if s.len() > 0 && is_ws_char(s[0]) {
        trim_start_seq(s.drop_first())
    } else {
        s
    }
}

/// The sequence with trailing whitespace removed.
pub open spec fn trim_end_seq(s: Seq<char>) -> Seq<char>
    decreases s.len(),
{
    if s.len() > 0 && is_ws_char(s.last()) {
        trim_end_seq(s.drop_last())
    } else {
        s
    }
}

/// `str::trim`.
pub open spec fn trim_seq(s: Seq<char>) -> Seq<char> {
    trim_end_seq(trim_start_seq(s))
}

proof fn lemma_trim_start_skip(s: Seq<char>, i: int)
    requires
        0 <= i <= s.len(),
        forall|k: int| 0 <= k < i ==> is_ws_char(#[trigger] s[k]),
    ensures
        trim_start_seq(s) == trim_start_seq(s.subrange(i, s.len() as int)),
    decreases i,
{
    if i > 0 {
        let t = s.drop_first();
        assert forall|k: int| 0 <= k < i - 1 implies is_ws_char(#[trigger] t[k]) by {
            assert(t[k] == s[k + 1]);
        }
        lemma_trim_start_skip(t, i - 1);
        assert(t.subrange(i - 1, t.len() as int) =~= s.subrange(i, s.len() as int));
    } else {
        assert(s.subrange(0, s.len() as int) =~= s);
    }
}

proof fn lemma_trim_end_cut(s: Seq<char>, j: int)
    requires
        0 <= j <= s.len(),
        forall|k: int| j <= k < s.len() ==> is_ws_char(#[trigger] s[k]),
    ensures
        trim_end_seq(s) == trim_end_seq(s.subrange(0, j)),
    decreases s.len() - j,
{
    if j < s.len() {
        let t = s.drop_last();
        assert forall|k: int| j <= k < t.len() implies is_ws_char(#[trigger] t[k]) by {
            assert(t[k] == s[k]);
        }
        lemma_trim_end_cut(t, j);
        assert(t.subrange(0, j) =~= s.subrange(0, j));
    } else {
        assert(s.subrange(0, j) =~= s);
    }
}

/// Leading whitespace dropped (`str::trim_start`).
pub fn trim_start_chars(v: &[char]) -> (out: Vec<char>)
    ensures
        out@ == trim_start_seq(v@),
{
    let mut i: usize = 0;
    while i < v.len() && is_whitespace(v[i])
        invariant
            i <= v.len(),
            forall|k: int| 0 <= k < i ==> is_ws_char(#[trigger] v@[k]),
        decreases v.len() - i,
    {
        i += 1;
    }
    proof {
        lemma_trim_start_skip(v@, i as int);
    }
    slice_chars(v, i, v.len())
}

/// Trailing whitespace dropped (`str::trim_end`).
pub fn trim_end_chars(v: &[char]) -> (out: Vec<char>)
    ensures
        out@ == trim_end_seq(v@),
{
    let mut j: usize = v.len();
    while j > 0 && is_whitespace(v[j - 1])
        invariant
            j <= v.len(),
            forall|k: int| j <= k < v.len() ==> is_ws_char(#[trigger] v@[k]),
        decreases j,
    {
        j -= 1;
    }
    proof {
        lemma_trim_end_cut(v@, j as int);
    }
    slice_chars(v, 0, j)
}

/// Both ends trimmed (`str::trim`).
pub fn trim_chars(v: &[char]) -> (out: Vec<char>)
    ensures
        out@ == trim_seq(v@),
{
    let a = trim_start_chars(v);
    trim_end_chars(&a)
}

/// The trimmed characters of a string slice.
pub fn trimmed(s: &str) -> (out: Vec<char>)
    ensures
        out@ == trim_seq(s@),
{
    let v = chars_of(s);
    trim_chars(&v)
}

/// `s.trim()` as an owned string.
pub fn trim_string(s: &str) -> (out: String)
    ensures
        out@ == trim_seq(s@),
{
    let v = trimmed(s);
    string_of(&v)
}

/// Whether some character of the sequence is a control character.
pub open spec fn has_control(s: Seq<char>) -> bool {
    exists|i: int| 0 <= i < s.len() && is_control_char(#[trigger] s[i])
}

pub fn any_control(v: &[char]) -> (r: bool)
    ensures
        r == has_control(v@),
{
    let mut i: usize = 0;
    while i < v.len()
        invariant
            i <= v.len(),
            forall|k: int| 0 <= k < i ==> !is_control_char(#[trigger] v@[k]),
        decreases v.len() - i,
    {
        if is_control(v[i]) {
            assert(is_control_char(v@[i as int]));
            return true;
        }
        i += 1;
    }
    false
}

/// The first `n` characters (`chars().take(n)`).
pub open spec fn take_seq(s: Seq<char>, n: int) -> Seq<char> {
    if s.len() <= n {
        s
    } else {
        s.take(n)
    }
}

pub fn take_chars(v: &[char], n: usize) -> (out: Vec<char>)
    ensures
        out@ == take_seq(v@, n as int),
{
    if v.len() <= n {
        slice_chars(v, 0, v.len())
    } else {
        slice_chars(v, 0, n)
    }
}

/// `split_whitespace().collect::<Vec<_>>().join(" ")`, read left to right:
/// the words of the input, each pair separated by exactly one space. The pair
/// is the output so far and whether whitespace has been seen since its last
/// word.
pub open spec fn collapse_state(s: Seq<char>) -> (Seq<char>, bool)
    decreases s.len(),
{
    if s.len() == 0 {
        (Seq::empty(), false)
    } else {
        let (out, gap) = collapse_state(s.drop_last());
        let c = s.last();
        if is_ws_char(c) {
            (out, true)
        } else if gap && out.len() > 0 {
            (out.push(' ').push(c), false)
        } else {
            (out.push(c), false)
        }
    }
}

pub open spec fn collapse_ws_seq(s: Seq<char>) -> Seq<char> {
    collapse_state(s).0
}

pub fn collapse_whitespace(v: &[char]) -> (out: Vec<char>)
    ensures
        out@ == collapse_ws_seq(v@),
{
    let mut out: Vec<char> = Vec::new();
    let mut gap = false;
    let mut i: usize = 0;
    while i < v.len()
        invariant
            i <= v.len(),
            (out@, gap) == collapse_state(v@.take(i as int)),
        decreases v.len() - i,
    {
        let c = v[i];
        assert(v@.take(i + 1).drop_last() =~= v@.take(i as int));
        if is_whitespace(c) {
            gap = true;
        } else {
            if gap && out.len() > 0 {
                out.push(' ');
            }
            out.push(c);
            gap = false;
        }
        i += 1;
    }
    assert(v@.take(v.len() as int) =~= v@);
    out
}

/// Whether `pre` is a prefix of `s`.
pub open spec fn has_prefix(s: Seq<char>, pre: Seq<char>) -> bool {
    pre.len() <= s.len() && s.take(pre.len() as int) == pre
}

/// Whether `suf` is a suffix of `s`.
pub open spec fn has_suffix(s: Seq<char>, suf: Seq<char>) -> bool {
    suf.len() <= s.len() && s.skip(s.len() - suf.len()) == suf
}

/// Whether `needle` occurs in `s` starting at `i`.
pub open spec fn occurs_at(s: Seq<char>, needle: Seq<char>, i: int) -> bool {
    0 <= i && i + needle.len() <= s.len() && s.subrange(i, i + needle.len()) == needle
}

/// Whether `needle` occurs anywhere in `s` (`str::contains`).
pub open spec fn contains_seq(s: Seq<char>, needle: Seq<char>) -> bool {
    exists|i: int| occurs_at(s, needle, i)
}

pub fn matches_at(s: &[char], needle: &[char], i: usize) -> (r: bool)
    ensures
        r == occurs_at(s@, needle@, i as int),
{
    if i > s.len() || needle.len() > s.len() - i {
        return false;
    }
    let mut k: usize = 0;
    while k < needle.len()
        invariant
            k <= needle.len(),
            i + needle.len() <= s.len(),
            forall|j: int| 0 <= j < k ==> s@[i + j] == needle@[j],
        decreases needle.len() - k,
    {
        if s[i + k] != needle[k] {
            assert(s@.subrange(i as int, i + needle.len())[k as int] != needle@[k as int]);
            return false;
        }
        k += 1;
    }
    assert(s@.subrange(i as int, i + needle.len()) =~= needle@);
    true
}

pub fn starts_with(s: &[char], pre: &[char]) -> (r: bool)
    ensures
        r == has_prefix(s@, pre@),
{
    let r = matches_at(s, pre, 0);
    proof {
        if pre@.len() <= s@.len() {
            assert(s@.subrange(0, pre@.len() as int) =~= s@.take(pre@.len() as int));
        }
    }
    r
}

pub fn ends_with(s: &[char], suf: &[char]) -> (r: bool)
    ensures
        r == has_suffix(s@, suf@),
{
    if suf.len() > s.len() {
        return false;
    }
    let r = matches_at(s, suf, s.len() - suf.len());
    assert(s@.subrange(s.len() - suf.len(), s.len() as int) =~= s@.skip(s.len() - suf.len()));
    r
}

/// The first position where `needle` occurs at or after `from`, if any.
pub fn find_from(s: &[char], needle: &[char], from: usize) -> (r: Option<usize>)
    ensures
        match r {
            Some(i) => from <= i && occurs_at(s@, needle@, i as int) && forall|j: int|
                from <= j < i ==> !occurs_at(s@, needle@, j),
            None => forall|j: int| from <= j ==> !occurs_at(s@, needle@, j),
        },
{
    let mut i = from;
    while i < s.len()
        invariant
            from <= i,
            forall|j: int| from <= j < i ==> !occurs_at(s@, needle@, j),
        decreases s.len() - i,
    {
        if matches_at(s, needle, i) {
            return Some(i);
        }
        i += 1;
    }
    if i == s.len() && matches_at(s, needle, i) {
        return Some(i);
    }
    None
}

pub fn contains(s: &[char], needle: &[char]) -> (r: bool)
    ensures
        r == contains_seq(s@, needle@),
{
    match find_from(s, needle, 0) {
        Some(_) => true,
        None => false,
    }
}

/// The position of the first occurrence of `c` at or after `from`.
pub fn find_char(s: &[char], c: char, from: usize) -> (r: Option<usize>)
    ensures
        match r {
            Some(i) => from <= i < s.len() && s@[i as int] == c && forall|j: int|
                from <= j < i ==> s@[j] != c,
            None => forall|j: int| from <= j < s.len() ==> s@[j] != c,
        },
{
    let mut i = from;
    while i < s.len()
        invariant
            from <= i || i >= s.len(),
            forall|j: int| from <= j < i && j < s.len() ==> s@[j] != c,
        decreases s.len() - i,
    {
        if s[i] == c {
            return Some(i);
        }
        i += 1;
    }
    None
}

/// Equality of two character vectors.
pub fn chars_eq(a: &[char], b: &[char]) -> (r: bool)
    ensures
        r == (a@ == b@),
{
    if a.len() != b.len() {
        return false;
    }
    let r = matches_at(a, b, 0);
    assert(a@.subrange(0, b@.len() as int) =~= a@);
    r
}

/// Equality of a character vector and a string slice.
pub fn eq_str(a: &[char], b: &str) -> (r: bool)
    ensures
        r == (a@ == b@),
{
    let bv = chars_of(b);
    chars_eq(a, &bv)
}

/// Equality of two string slices.
pub fn str_eq(a: &str, b: &str) -> (r: bool)
    ensures
        r == (a@ == b@),
{
    let av = chars_of(a);
    eq_str(&av, b)
}

/// The characters that are not control characters, in order.
pub open spec fn strip_controls_seq(s: Seq<char>) -> Seq<char> {
    s.filter(|c: char| !is_control_char(c))
}

pub fn strip_controls(v: &[char]) -> (out: Vec<char>)
    ensures
        out@ == strip_controls_seq(v@),
{
    let mut out: Vec<char> = Vec::new();
    let mut i: usize = 0;
    while i < v.len()
        invariant
            i <= v.len(),
            out@ == strip_controls_seq(v@.take(i as int)),
        decreases v.len() - i,
    {
        proof {
            let t = v@.take(i + 1);
            assert(t.drop_last() =~= v@.take(i as int));
            reveal_with_fuel(Seq::filter, 1);
        }
        if !is_control(v[i]) {
            out.push(v[i]);
        }
        i += 1;
    }
    assert(v@.take(v.len() as int) =~= v@);
    out
}

/// `i` is the first position at or after `from` where `needle` occurs.
pub open spec fn is_first_at(s: Seq<char>, needle: Seq<char>, from: int, i: int) -> bool {
    from <= i && occurs_at(s, needle, i) && forall|j: int| from <= j < i ==> !occurs_at(s, needle, j)
}

/// The first position at or after `from` where `needle` occurs (`str::find`
/// on the tail).
pub open spec fn first_at(s: Seq<char>, needle: Seq<char>, from: int) -> Option<int> {
    if exists|i: int| is_first_at(s, needle, from, i) {
        Some(choose|i: int| is_first_at(s, needle, from, i))
    } else {
        None
    }
}

pub proof fn lemma_first_at_unique(s: Seq<char>, needle: Seq<char>, from: int, i: int)
    requires
        is_first_at(s, needle, from, i),
    ensures
        first_at(s, needle, from) == Some(i),
{
    let k = choose|k: int| is_first_at(s, needle, from, k);
    assert(is_first_at(s, needle, from, k));
    if k < i {
        assert(!occurs_at(s, needle, k));
    } else if i < k {
        assert(!occurs_at(s, needle, i));
    }
}

/// `find_from` stated over [`first_at`].
pub fn find_first(s: &[char], needle: &[char], from: usize) -> (r: Option<usize>)
    ensures
        match r {
            Some(i) => first_at(s@, needle@, from as int) == Some(i as int) && i + needle@.len()
                <= s@.len(),
            None => first_at(s@, needle@, from as int) is None,
        },
{
    let r = find_from(s, needle, from);
    proof {
        match r {
            Some(i) => {
                lemma_first_at_unique(s@, needle@, from as int, i as int);
            },
            None => {
                assert(!exists|i: int| is_first_at(s@, needle@, from as int, i));
            },
        }
    }
    r
}

/// The text before the first `needle`, or all of it (`split(needle).next()`).
pub open spec fn before_first(s: Seq<char>, needle: Seq<char>) -> Seq<char> {
    match first_at(s, needle, 0) {
        Some(i) => s.take(i),
        None => s,
    }
}

pub fn before_first_chars(s: &[char], needle: &[char]) -> (out: Vec<char>)
    ensures
        out@ == before_first(s@, needle@),
{
    match find_first(s, needle, 0) {
        Some(i) => slice_chars(s, 0, i),
        None => slice_chars(s, 0, s.len()),
    }
}

/// The sequence with every leading character that is in `set` removed
/// (`trim_start_matches` with a set of characters).
pub open spec fn strip_leading(s: Seq<char>, set: Seq<char>) -> Seq<char>
    decreases s.len(),
{
    if s.len() > 0 && set.contains(s[0]) {
        strip_leading(s.drop_first(), set)
    } else {
        s
    }
}

pub fn char_in(set: &[char], c: char) -> (r: bool)
    ensures
        r == set@.contains(c),
{
    let mut i: usize = 0;
    while i < set.len()
        invariant
            i <= set.len(),
            forall|k: int| 0 <= k < i ==> set@[k] != c,
        decreases set.len() - i,
    {
        if set[i] == c {
            assert(set@[i as int] == c);
            return true;
        }
        i += 1;
    }
    false
}

proof fn lemma_strip_leading_skip(s: Seq<char>, set: Seq<char>, i: int)
    requires
        0 <= i <= s.len(),
        forall|k: int| 0 <= k < i ==> set.contains(#[trigger] s[k]),
    ensures
        strip_leading(s, set) == strip_leading(s.subrange(i, s.len() as int), set),
    decreases i,
{
    if i > 0 {
        let t = s.drop_first();
        assert forall|k: int| 0 <= k < i - 1 implies set.contains(#[trigger] t[k]) by {
            assert(t[k] == s[k + 1]);
        }
        lemma_strip_leading_skip(t, set, i - 1);
        assert(t.subrange(i - 1, t.len() as int) =~= s.subrange(i, s.len() as int));
    } else {
        assert(s.subrange(0, s.len() as int) =~= s);
    }
}

pub fn strip_leading_chars(s: &[char], set: &[char]) -> (out: Vec<char>)
    ensures
        out@ == strip_leading(s@, set@),
{
    let mut i: usize = 0;
    while i < s.len() && char_in(set, s[i])
        invariant
            i <= s.len(),
            forall|k: int| 0 <= k < i ==> set@.contains(#[trigger] s@[k]),
        decreases s.len() - i,
    {
        i += 1;
    }
    proof {
        lemma_strip_leading_skip(s@, set@, i as int);
    }
    slice_chars(s, i, s.len())
}

/// The pieces of `s` between separators, in order (`str::split`).
pub open spec fn split_pieces(s: Seq<char>, sep: char) -> Seq<Seq<char>>
    decreases s.len(),
{
    if s.len() == 0 {
        seq![Seq::empty()]
    } else {
        let p = split_pieces(s.drop_last(), sep);
        if s.last() == sep {
            p.push(Seq::empty())
        } else {
            p.update(p.len() - 1, p.last().push(s.last()))
        }
    }
}

pub proof fn lemma_split_pieces_len(s: Seq<char>, sep: char)
    ensures
        split_pieces(s, sep).len() >= 1,
    decreases s.len(),
{
    if s.len() > 0 {
        lemma_split_pieces_len(s.drop_last(), sep);
    }
}

/// The pieces of a character vector between separators.
pub fn split_chars(v: &[char], sep: char) -> (out: Vec<Vec<char>>)
    ensures
        out@.len() == split_pieces(v@, sep).len(),
        forall|i: int| 0 <= i < out@.len() ==> (#[trigger] out@[i])@ == split_pieces(v@, sep)[i],
{
    let mut out: Vec<Vec<char>> = Vec::new();
    let mut cur: Vec<char> = Vec::new();
    let mut i: usize = 0;
    while i < v.len()
        invariant
            i <= v.len(),
            out@.len() + 1 == split_pieces(v@.take(i as int), sep).len(),
            forall|k: int| 0 <= k < out@.len() ==> (#[trigger] out@[k])@ == split_pieces(
                v@.take(i as int),
                sep,
            )[k],
            cur@ == split_pieces(v@.take(i as int), sep).last(),
        decreases v.len() - i,
    {
        proof {
            lemma_split_pieces_len(v@.take(i as int), sep);
            assert(v@.take(i + 1).drop_last() =~= v@.take(i as int));
        }
        if v[i] == sep {
            out.push(cur);
            cur = Vec::new();
            assert(cur@ =~= Seq::<char>::empty());
        } else {
            cur.push(v[i]);
        }
        i += 1;
    }
    proof {
        lemma_split_pieces_len(v@, sep);
        assert(v@.take(v.len() as int) =~= v@);
    }
    out.push(cur);
    out
}

/// Where `needle` first occurs in a tail of `s` is where it first occurs in
/// `s` from the tail's start on, shifted.
pub proof fn lemma_first_at_skip(s: Seq<char>, needle: Seq<char>, p: int)
    requires
        0 <= p <= s.len(),
    ensures
        first_at(s.skip(p), needle, 0) == match first_at(s, needle, p) {
            Some(i) => Some(i - p),
            None => None,
        },
{
    let t = s.skip(p);
    assert forall|j: int| 0 <= j implies occurs_at(t, needle, j) == occurs_at(s, needle, j + p) by {
        if j + needle.len() <= t.len() {
            assert(t.subrange(j, j + needle.len()) =~= s.subrange(j + p, j + p + needle.len()));
        }
    }
    match first_at(s, needle, p) {
        Some(i) => {
            assert(is_first_at(s, needle, p, i));
            assert forall|j: int| 0 <= j < i - p implies !occurs_at(t, needle, j) by {
                assert(!occurs_at(s, needle, j + p));
            }
            assert(is_first_at(t, needle, 0, i - p));
            lemma_first_at_unique(t, needle, 0, i - p);
        },
        None => {
            if exists|k: int| is_first_at(t, needle, 0, k) {
                let k = choose|k: int| is_first_at(t, needle, 0, k);
                assert forall|j: int| p <= j < k + p implies !occurs_at(s, needle, j) by {
                    assert(!occurs_at(t, needle, j - p));
                }
                assert(is_first_at(s, needle, p, k + p));
                lemma_first_at_unique(s, needle, p, k + p);
            }
        },
    }
}

/// `str::replace`: every occurrence of `from`, left to right and without
/// overlap, replaced by `to`.
pub open spec fn replace_all(s: Seq<char>, from: Seq<char>, to: Seq<char>) -> Seq<char>
    decreases s.len(),
{
    if from.len() == 0 {
        s
    } else {
        match first_at(s, from, 0) {
            Some(i) => if 0 <= i && i + from.len() <= s.len() {
                s.take(i) + to + replace_all(s.skip(i + from.len()), from, to)
            } else {
                s
            },
            None => s,
        }
    }
}

#[verifier::loop_isolation(false)]
pub fn replace_chars(s: &[char], from: &[char], to: &[char]) -> (out: Vec<char>)
    requires
        from@.len() > 0,
    ensures
        out@ == replace_all(s@, from@, to@),
{
    let mut out: Vec<char> = Vec::new();
    let mut p: usize = 0;
    assert(s@.skip(0) =~= s@);
    while p <= s.len()
        invariant
            p <= s.len(),
            replace_all(s@, from@, to@) == out@ + replace_all(s@.skip(p as int), from@, to@),
        decreases s.len() + 1 - p,
    {
        proof {
            lemma_first_at_skip(s@, from@, p as int);
        }
        match find_first(s, from, p) {
            None => {
                let rest = slice_chars(s, p, s.len());
                assert(rest@ =~= s@.skip(p as int));
                extend_chars(&mut out, &rest);
                return out;
            },
            Some(i) => {
                let ghost t = s@.skip(p as int);
                assert(first_at(s@, from@, p as int) == Some(i as int));
                assert(is_first_at(s@, from@, p as int, i as int));
                let before = slice_chars(s, p, i);
                assert(before@ =~= t.take(i - p));
                extend_chars(&mut out, &before);
                extend_chars(&mut out, to);
                assert(t.skip(i - p + from@.len()) =~= s@.skip(i + from@.len()));
                p = i + from.len();
            },
        }
    }
    out
}

/// [`replace_chars`] on string slices.
pub fn replace_str(s: &str, from: &str, to: &str) -> (out: String)
    requires
        from@.len() > 0,
    ensures
        out@ == replace_all(s@, from@, to@),
{
    let sv = chars_of(s);
    let fv = chars_of(from);
    let tv = chars_of(to);
    string_of(&replace_chars(&sv, &fv, &tv))
}

/// Lexicographic order on character sequences, by code point (the order in
/// which `str`, `OsStr` and `Path` compare names).
pub open spec fn lex_le(a: Seq<char>, b: Seq<char>) -> bool
    decreases a.len(),
{
    if a.len() == 0 {
        true
    } else if b.len() == 0 {
        false
    } else if a[0] != b[0] {
        a[0] < b[0]
    } else {
        lex_le(a.drop_first(), b.drop_first())
    }
}

pub proof fn lemma_lex_total(a: Seq<char>, b: Seq<char>)
    ensures
        lex_le(a, b) || lex_le(b, a),
    decreases a.len(),
{
    if a.len() > 0 && b.len() > 0 && a[0] == b[0] {
        lemma_lex_total(a.drop_first(), b.drop_first());
    }
}

pub proof fn lemma_lex_trans(a: Seq<char>, b: Seq<char>, c: Seq<char>)
    requires
        lex_le(a, b),
        lex_le(b, c),
    ensures
        lex_le(a, c),
    decreases a.len(),
{
    if a.len() > 0 && b.len() > 0 && c.len() > 0 && a[0] == b[0] && b[0] == c[0] {
        lemma_lex_trans(a.drop_first(), b.drop_first(), c.drop_first());
    }
}

pub proof fn lemma_lex_antisym(a: Seq<char>, b: Seq<char>)
    requires
        lex_le(a, b),
        lex_le(b, a),
    ensures
        a == b,
    decreases a.len(),
{
    if a.len() > 0 && b.len() > 0 {
        lemma_lex_antisym(a.drop_first(), b.drop_first());
        assert(a =~= seq![a[0]] + a.drop_first());
        assert(b =~= seq![b[0]] + b.drop_first());
    }
}

pub fn lex_le_chars(a: &[char], b: &[char]) -> (r: bool)
    ensures
        r == lex_le(a@, b@),
{
    let mut i: usize = 0;
    assert(a@.skip(0) =~= a@);
    assert(b@.skip(0) =~= b@);
    while i < a.len() && i < b.len()
        invariant
            i <= a.len(),
            i <= b.len(),
            forall|k: int| 0 <= k < i ==> a@[k] == b@[k],
            lex_le(a@, b@) == lex_le(a@.skip(i as int), b@.skip(i as int)),
        decreases a.len() - i,
    {
        let ghost sa = a@.skip(i as int);
        let ghost sb = b@.skip(i as int);
        assert(sa[0] == a@[i as int]);
        assert(sb[0] == b@[i as int]);
        if a[i] != b[i] {
            return a[i] < b[i];
        }
        assert(sa.drop_first() =~= a@.skip(i + 1));
        assert(sb.drop_first() =~= b@.skip(i + 1));
        i += 1;
    }
    i == a.len()
}

/// The character views of a list of character vectors.
pub open spec fn char_views(v: Seq<Vec<char>>) -> Seq<Seq<char>> {
    v.map_values(|c: Vec<char>| c@)
}

/// The names in ascending lexicographic order (a stable insertion sort).
pub fn sort_names(v: Vec<Vec<char>>) -> (out: Vec<Vec<char>>)
    ensures
        vstd::relations::sorted_by(char_views(out@), |a: Seq<char>, b: Seq<char>| lex_le(a, b)),
        char_views(out@).to_multiset() == char_views(v@).to_multiset(),
{
    broadcast use vstd::seq_lib::to_multiset_insert;
    let mut out: Vec<Vec<char>> = Vec::new();
    let mut i: usize = 0;
    assert(char_views(v@).take(0) =~= char_views(out@));
    while i < v.len()
        invariant
            i <= v.len(),
            forall|p: int, q: int|
                0 <= p < q < out@.len() ==> lex_le(#[trigger] char_views(out@)[p], #[trigger] char_views(out@)[q]),
            char_views(out@).to_multiset() == char_views(v@).take(i as int).to_multiset(),
        decreases v.len() - i,
    {
        let x = &v[i];
        let mut j: usize = 0;
        while j < out.len() && lex_le_chars(&out[j], x)
            invariant
                j <= out.len(),
                forall|k: int| 0 <= k < j ==> lex_le(#[trigger] char_views(out@)[k], x@),
            decreases out.len() - j,
        {
            assert(char_views(out@)[j as int] == out@[j as int]@);
            j += 1;
        }
        let ghost before = char_views(out@);
        proof {
            if j < out.len() {
                assert(before[j as int] == out@[j as int]@);
                lemma_lex_total(before[j as int], x@);
            }
        }
        let mut copy: Vec<char> = Vec::new();
        extend_chars(&mut copy, x.as_slice());
        assert(copy@ =~= x@);
        out.insert(j, copy);
        assert(char_views(out@) =~= before.insert(j as int, x@));
        proof {
            let after = char_views(out@);
            assert forall|p: int, q: int| 0 <= p < q < after.len() implies lex_le(
                #[trigger] after[p],
                #[trigger] after[q],
            ) by {
                if q < j {
                    assert(after[p] == before[p] && after[q] == before[q]);
                } else if q == j {
                    assert(after[p] == before[p]);
                } else if p < j {
                    assert(after[p] == before[p] && after[q] == before[q - 1]);
                    lemma_lex_total(before[j as int], x@);
                    if j < q - 1 {
                    }
                    lemma_lex_trans(before[p], x@, before[j as int]);
                    if j as int == q - 1 {
                    } else {
                        lemma_lex_trans(before[p], before[j as int], before[q - 1]);
                    }
                } else if p == j {
                    assert(after[q] == before[q - 1]);
                    if j as int != q - 1 {
                        lemma_lex_trans(x@, before[j as int], before[q - 1]);
                    }
                } else {
                    assert(after[p] == before[p - 1] && after[q] == before[q - 1]);
                }
            }
            assert(char_views(v@).take(i + 1) =~= char_views(v@).take(i as int).push(x@));
            vstd::seq_lib::to_multiset_build(char_views(v@).take(i as int), x@);
            vstd::seq_lib::to_multiset_insert(before, j as int, x@);
        }
        i += 1;
    }
    assert(char_views(v@).take(v.len() as int) =~= char_views(v@));
    out
}

/// The character views of a list of strings.
pub open spec fn string_views(v: Seq<String>) -> Seq<Seq<char>> {
    v.map_values(|s: String| s@)
}

pub proof fn lemma_string_views_push(v: Seq<String>, x: String)
    ensures
        string_views(v.push(x)) == string_views(v).push(x@),
{
    assert(string_views(v.push(x)) =~= string_views(v).push(x@));
}

/// The sequence with every trailing character that is in `set` removed.
pub open spec fn strip_trailing(s: Seq<char>, set: Seq<char>) -> Seq<char>
    decreases s.len(),
{
    if s.len() > 0 && set.contains(s.last()) {
        strip_trailing(s.drop_last(), set)
    } else {
        s
    }
}

proof fn lemma_strip_trailing_cut(s: Seq<char>, set: Seq<char>, j: int)
    requires
        0 <= j <= s.len(),
        forall|k: int| j <= k < s.len() ==> set.contains(#[trigger] s[k]),
    ensures
        strip_trailing(s, set) == strip_trailing(s.subrange(0, j), set),
    decreases s.len() - j,
{
    if j < s.len() {
        let t = s.drop_last();
        assert forall|k: int| j <= k < t.len() implies set.contains(#[trigger] t[k]) by {
            assert(t[k] == s[k]);
        }
        lemma_strip_trailing_cut(t, set, j);
        assert(t.subrange(0, j) =~= s.subrange(0, j));
    } else {
        assert(s.subrange(0, j) =~= s);
    }
}

pub fn strip_trailing_chars(s: &[char], set: &[char]) -> (out: Vec<char>)
    ensures
        out@ == strip_trailing(s@, set@),
{
    let mut j: usize = s.len();
    while j > 0 && char_in(set, s[j - 1])
        invariant
            j <= s.len(),
            forall|k: int| j <= k < s.len() ==> set@.contains(#[trigger] s@[k]),
        decreases j,
    {
        j -= 1;
    }
    proof {
        lemma_strip_trailing_cut(s@, set@, j as int);
    }
    slice_chars(s, 0, j)
}

/// The first line of a text (`lines().next()`, or empty): the text before the
/// first newline.
pub open spec fn first_line(s: Seq<char>) -> Seq<char> {
    before_first(s, seq!['\n'])
}

pub fn first_line_chars(s: &[char]) -> (out: Vec<char>)
    ensures
        out@ == first_line(s@),
{
    let nl = vec!['\n'];
    assert(nl@ =~= seq!['\n']);
    before_first_chars(s, &nl)
}

} // verus!
