//! The WebUI theme library: which file names are themes, and what the picker
//! shows of each theme (its title, description and accent colour), read from
//! the comment at the head of the CSS file.
use crate::text::{
    before_first, before_first_chars, char_in, chars_of, first_at, find_first, has_prefix,
    is_ascii_alnum, is_ascii_alnum_char, slice_chars, starts_with, string_of, strip_leading,
    strip_leading_chars, trim_chars, trim_seq, trim_start_chars, trim_start_seq,
};
use crate::path::{join, join_seq};
use crate::text::{ends_with, lemma_lex_total, lemma_lex_trans, lex_le, lex_le_chars};
use crate::text::has_suffix;
use vstd::prelude::*;

verus! {

/// The directory under the configuration directory that holds the themes.
pub const THEME_DIR: &'static str = "webui-themes";

/// Themes larger than this many bytes are not served.
pub const MAX_THEME_BYTES: u64 = 262144;

/// A character a theme name may hold: a lowercase ASCII letter, a digit or `-`.
pub open spec fn theme_name_char(c: char) -> bool {
    ('a' <= c && c <= 'z') || ('0' <= c && c <= '9') || c == '-'
}

/// A theme name: 1 to 40 characters, each a lowercase letter, a digit or `-`,
/// not starting with `-`.
pub open spec fn is_valid_theme_name(s: Seq<char>) -> bool {
    &&& 0 < s.len() <= 40
    &&& forall|i: int| 0 <= i < s.len() ==> theme_name_char(#[trigger] s[i])
    &&& s[0] != '-'
}

pub fn valid_name(name: &str) -> (r: bool)
    ensures
        r == is_valid_theme_name(name@),
{
    let v = chars_of(name);
    if v.len() == 0 || v.len() > 40 || v[0] == '-' {
        return false;
    }
    let mut i: usize = 0;
    while i < v.len()
        invariant
            i <= v.len(),
            v@ == name@,
            forall|k: int| 0 <= k < i ==> theme_name_char(#[trigger] v@[k]),
        decreases v.len() - i,
    {
        let c = v[i];
        if !(('a' <= c && c <= 'z') || ('0' <= c && c <= '9') || c == '-') {
            assert(!theme_name_char(v@[i as int]));
            return false;
        }
        i += 1;
    }
    true
}

/// The comment at the head of the file: after leading whitespace, the text
/// between `/*` and the first `*/` (or the end); empty when the file does not
/// start with a comment.
pub open spec fn theme_header(css: Seq<char>) -> Seq<char> {
    let t = trim_start_seq(css);
    if has_prefix(t, "/*"@) {
        before_first(t.skip("/*"@.len() as int), "*/"@)
    } else {
        Seq::empty()
    }
}

/// A header line as it is read: trimmed, leading `*`s dropped, trimmed again.
pub open spec fn clean_line(line: Seq<char>) -> Seq<char> {
    trim_seq(strip_leading(trim_seq(line), seq!['*']))
}

/// The value a line gives for `key`: the line must start with the key; the
/// colons (ASCII or full-width) after it are dropped and the rest trimmed; an
/// empty value counts as none.
pub open spec fn key_value(line: Seq<char>, key: Seq<char>) -> Option<Seq<char>> {
    if has_prefix(line, key) {
        let v = trim_seq(strip_leading(line.skip(key.len() as int), seq![':', '：']));
        if v.len() > 0 {
            Some(v)
        } else {
            None
        }
    } else {
        None
    }
}

/// The value of a line for the first of the two keys that gives one.
pub open spec fn line_value(line: Seq<char>, k1: Seq<char>, k2: Seq<char>) -> Option<Seq<char>> {
    match key_value(line, k1) {
        Some(v) => Some(v),
        None => key_value(line, k2),
    }
}

/// Where the line that starts at `p` ends: the next newline, or the end.
pub open spec fn line_end(h: Seq<char>, p: int) -> int {
    match first_at(h, seq!['\n'], p) {
        Some(e) => e,
        None => h.len() as int,
    }
}

/// The value of a header field, looking at the lines from position `p` on:
/// the first line that gives a value for one of the keys.
pub open spec fn field_from(h: Seq<char>, k1: Seq<char>, k2: Seq<char>, p: int) -> Option<Seq<char>>
    decreases h.len() - p,
{
    if p < 0 || p > h.len() {
        None
    } else {
        let end = line_end(h, p);
        match line_value(clean_line(h.subrange(p, end)), k1, k2) {
            Some(v) => Some(v),
            None => if p <= end < h.len() {
                field_from(h, k1, k2, end + 1)
            } else {
                None
            },
        }
    }
}

/// The value of a header field: the first line of the header that gives one.
pub open spec fn header_field(h: Seq<char>, k1: Seq<char>, k2: Seq<char>) -> Option<Seq<char>> {
    field_from(h, k1, k2, 0)
}

/// A character an accent colour value may hold.
pub open spec fn accent_char(c: char) -> bool {
    is_ascii_alnum_char(c) || "#(),.% "@.contains(c)
}

/// The primary colour the theme sets: the text after the first
/// `--md-sys-color-primary:` up to the next `;` (or the next such
/// declaration), trimmed, kept only when every character may stand in a
/// colour value.
pub open spec fn theme_accent(css: Seq<char>) -> Option<Seq<char>> {
    let p = "--md-sys-color-primary:"@;
    match first_at(css, p, 0) {
        None => None,
        Some(i) => {
            let piece = before_first(css.skip(i + p.len()), p);
            let value = trim_seq(before_first(piece, seq![';']));
            if forall|k: int| 0 <= k < value.len() ==> accent_char(#[trigger] value[k]) {
                Some(value)
            } else {
                None
            }
        },
    }
}

/// What the theme picker shows of one theme.
pub struct ThemeInfo {
    pub name: String,
    pub title: String,
    pub description: String,
    pub accent: Option<String>,
}

fn clean_line_chars(line: &[char]) -> (out: Vec<char>)
    ensures
        out@ == clean_line(line@),
{
    let t = trim_chars(line);
    let stars = vec!['*'];
    assert(stars@ =~= seq!['*']);
    let s = strip_leading_chars(&t, &stars);
    trim_chars(&s)
}

fn key_value_chars(line: &[char], key: &[char]) -> (r: Option<Vec<char>>)
    ensures
        match r {
            Some(v) => key_value(line@, key@) == Some(v@),
            None => key_value(line@, key@) is None,
        },
{
    if !starts_with(line, key) {
        return None;
    }
    let rest = slice_chars(line, key.len(), line.len());
    assert(rest@ =~= line@.skip(key@.len() as int));
    let colons = vec![':', '：'];
    assert(colons@ =~= seq![':', '：']);
    let stripped = strip_leading_chars(&rest, &colons);
    let v = trim_chars(&stripped);
    if v.len() > 0 {
        Some(v)
    } else {
        None
    }
}

fn header_field_chars(h: &[char], k1: &[char], k2: &[char]) -> (r: Option<Vec<char>>)
    ensures
        match r {
            Some(v) => header_field(h@, k1@, k2@) == Some(v@),
            None => header_field(h@, k1@, k2@) is None,
        },
{
    let nl = vec!['\n'];
    assert(nl@ =~= seq!['\n']);
    let mut p: usize = 0;
    while p <= h.len()
        invariant
            p <= h.len() + 1,
            nl@ == seq!['\n'],
            header_field(h@, k1@, k2@) == field_from(h@, k1@, k2@, p as int),
        decreases h.len() + 1 - p,
    {
        let end = match find_first(h, &nl, p) {
            Some(e) => e,
            None => h.len(),
        };
        assert(end == line_end(h@, p as int));
        assert(p <= end <= h.len());
        let raw = slice_chars(h, p, end);
        let line = clean_line_chars(&raw);
        match key_value_chars(&line, k1) {
            Some(v) => return Some(v),
            None => {},
        }
        match key_value_chars(&line, k2) {
            Some(v) => return Some(v),
            None => {},
        }
        if end >= h.len() {
            return None;
        }
        p = end + 1;
    }
    None
}

fn accent_chars(css: &[char]) -> (r: Option<Vec<char>>)
    ensures
        match r {
            Some(v) => theme_accent(css@) == Some(v@),
            None => theme_accent(css@) is None,
        },
{
    let p = chars_of("--md-sys-color-primary:");
    let i = match find_first(css, &p, 0) {
        Some(i) => i,
        None => return None,
    };
    assert(i + p@.len() <= css@.len());
    assert(css@.len() == css.len());
    let start: usize = i + p.len();
    let tail = slice_chars(css, start, css.len());
    assert(tail@ =~= css@.skip(i + p@.len()));
    let piece = before_first_chars(&tail, &p);
    let semi = vec![';'];
    assert(semi@ =~= seq![';']);
    let upto = before_first_chars(&piece, &semi);
    let value = trim_chars(&upto);
    let allowed = chars_of("#(),.% ");
    let ghost expected = trim_seq(before_first(before_first(css@.skip(i + p@.len()), p@), seq![';']));
    assert(value@ == expected);
    let ghost ok = forall|j: int| 0 <= j < expected.len() ==> accent_char(#[trigger] expected[j]);
    assert(theme_accent(css@) == if ok {
        Some(expected)
    } else {
        None
    });
    let mut k: usize = 0;
    while k < value.len()
        invariant
            k <= value.len(),
            value@ == expected,
            theme_accent(css@) == if ok {
                Some(expected)
            } else {
                None
            },
            ok == forall|j: int| 0 <= j < expected.len() ==> accent_char(#[trigger] expected[j]),
            allowed@ == "#(),.% "@,
            forall|j: int| 0 <= j < k ==> accent_char(#[trigger] value@[j]),
        decreases value.len() - k,
    {
        let c = value[k];
        if !(is_ascii_alnum(c) || char_in(&allowed, c)) {
            assert(!accent_char(expected[k as int]));
            return None;
        }
        k += 1;
    }
    Some(value)
}

/// What the theme picker shows of the theme `name` whose file holds `css`:
/// the `title:` (or `标题`) and `description:` (or `说明`) fields of the
/// header comment, falling back to the name and to nothing, and the accent
/// colour.
pub fn describe(css: &str, name: &str) -> (info: ThemeInfo)
    ensures
        info.name@ == name@,
        info.title@ == match header_field(theme_header(css@), "title"@, "标题"@) {
            Some(t) => t,
            None => name@,
        },
        info.description@ == match header_field(theme_header(css@), "description"@, "说明"@) {
            Some(d) => d,
            None => Seq::<char>::empty(),
        },
        match info.accent {
            Some(a) => theme_accent(css@) == Some(a@),
            None => theme_accent(css@) is None,
        },
{
    let all = chars_of(css);
    let t = trim_start_chars(&all);
    let open = chars_of("/*");
    let header: Vec<char> = if starts_with(&t, &open) {
        let rest = slice_chars(&t, open.len(), t.len());
        assert(rest@ =~= t@.skip(open@.len() as int));
        let close = chars_of("*/");
        before_first_chars(&rest, &close)
    } else {
        Vec::new()
    };
    assert(header@ =~= theme_header(css@));
    let k_title = chars_of("title");
    let k_title_zh = chars_of("标题");
    let k_desc = chars_of("description");
    let k_desc_zh = chars_of("说明");
    let title = match header_field_chars(&header, &k_title, &k_title_zh) {
        Some(v) => string_of(&v),
        None => name.to_owned(),
    };
    let description = match header_field_chars(&header, &k_desc, &k_desc_zh) {
        Some(v) => string_of(&v),
        None => String::new(),
    };
    let accent = match accent_chars(&all) {
        Some(v) => Some(string_of(&v)),
        None => None,
    };
    ThemeInfo { name: name.to_owned(), title, description, accent }
}

/// The directory of the theme library, under the configuration directory.
pub fn theme_dir(config_dir: &str) -> (out: Vec<char>)
    ensures
        out@ == join_seq(config_dir@, THEME_DIR@),
{
    let base = chars_of(config_dir);
    let rel = chars_of(THEME_DIR);
    join(&base, &rel)
}

/// The theme a file name stands for: the name without its `.css` suffix,
/// when that is a valid theme name.
pub open spec fn theme_of_file(file: Seq<char>) -> Option<Seq<char>> {
    if has_suffix(file, ".css"@) {
        let name = file.take(file.len() - ".css"@.len());
        if is_valid_theme_name(name) {
            Some(name)
        } else {
            None
        }
    } else {
        None
    }
}

pub fn theme_file_name(file: &str) -> (r: Option<String>)
    ensures
        match r {
            Some(n) => theme_of_file(file@) == Some(n@),
            None => theme_of_file(file@) is None,
        },
{
    let v = chars_of(file);
    let suffix = chars_of(".css");
    if !ends_with(&v, &suffix) {
        return None;
    }
    let name = string_of(&slice_chars(&v, 0, v.len() - suffix.len()));
    assert(name@ =~= file@.take(file@.len() - ".css"@.len()));
    if valid_name(name.as_str()) {
        Some(name)
    } else {
        None
    }
}


/// Whether a directory entry is listed as a theme: its file name stands for
/// a theme, it is a file, and it is at most [`MAX_THEME_BYTES`] long. The
/// same test decides whether a theme file is served.
pub open spec fn listed_theme(file: Seq<char>, is_file: bool, len: u64) -> Option<Seq<char>> {
    if is_file && len <= MAX_THEME_BYTES {
        theme_of_file(file)
    } else {
        None
    }
}

pub fn theme_entry(file: &str, is_file: bool, len: u64) -> (r: Option<String>)
    ensures
        match r {
            Some(n) => listed_theme(file@, is_file, len) == Some(n@),
            None => listed_theme(file@, is_file, len) is None,
        },
{
    if !is_file || len > MAX_THEME_BYTES {
        return None;
    }
    theme_file_name(file)
}

/// The mathematical view of a theme's card.
pub struct ThemeView {
    pub name: Seq<char>,
    pub title: Seq<char>,
    pub description: Seq<char>,
    pub accent: Option<Seq<char>>,
}

pub open spec fn theme_view(t: ThemeInfo) -> ThemeView {
    ThemeView {
        name: t.name@,
        title: t.title@,
        description: t.description@,
        accent: match t.accent {
            Some(a) => Some(a@),
            None => None,
        },
    }
}

pub open spec fn theme_views(v: Seq<ThemeInfo>) -> Seq<ThemeView> {
    v.map_values(|t: ThemeInfo| theme_view(t))
}

/// Puts a card after the leading cards whose titles are not above its title.
pub open spec fn insert_by_title(s: Seq<ThemeView>, x: ThemeView) -> Seq<ThemeView>
    decreases s.len(),
{
    if s.len() == 0 {
        seq![x]
    } else if lex_le(s[0].title, x.title) {
        seq![s[0]] + insert_by_title(s.drop_first(), x)
    } else {
        seq![x] + s
    }
}

/// The cards in a stable ascending order of titles: the order of the picker.
pub open spec fn by_title(v: Seq<ThemeView>) -> Seq<ThemeView>
    decreases v.len(),
{
    if v.len() == 0 {
        seq![]
    } else {
        insert_by_title(by_title(v.drop_last()), v.last())
    }
}

/// Every title is not above the titles after it.
pub open spec fn sorted_by_title(v: Seq<ThemeView>) -> bool {
    forall|p: int, q: int| 0 <= p < q < v.len() ==> lex_le(#[trigger] v[p].title, #[trigger] v[q].title)
}

proof fn lemma_insert_by_title_at(s: Seq<ThemeView>, x: ThemeView, j: int)
    requires
        0 <= j <= s.len(),
        forall|k: int| 0 <= k < j ==> lex_le(#[trigger] s[k].title, x.title),
        j == s.len() || !lex_le(s[j].title, x.title),
    ensures
        insert_by_title(s, x) == s.insert(j, x),
    decreases j,
{
    if j == 0 {
        if s.len() == 0 {
            assert(s.insert(0, x) =~= seq![x]);
        } else {
            assert(s.insert(0, x) =~= seq![x] + s);
        }
    } else {
        let t = s.drop_first();
        assert forall|k: int| 0 <= k < j - 1 implies lex_le(#[trigger] t[k].title, x.title) by {
            assert(t[k] == s[k + 1]);
        }
        lemma_insert_by_title_at(t, x, j - 1);
        assert(lex_le(s[0].title, x.title));
        assert(seq![s[0]] + t.insert(j - 1, x) =~= s.insert(j, x));
    }
}

proof fn lemma_insert_keeps_sorted(s: Seq<ThemeView>, x: ThemeView, j: int)
    requires
        sorted_by_title(s),
        0 <= j <= s.len(),
        forall|k: int| 0 <= k < j ==> lex_le(#[trigger] s[k].title, x.title),
        j == s.len() || !lex_le(s[j].title, x.title),
    ensures
        sorted_by_title(s.insert(j, x)),
{
    let r = s.insert(j, x);
    assert forall|p: int, q: int| 0 <= p < q < r.len() implies lex_le(#[trigger] r[p].title, #[trigger] r[q].title) by {
        if q < j {
            assert(r[p] == s[p] && r[q] == s[q]);
        } else if q == j {
            assert(r[p] == s[p]);
        } else if p < j {
            assert(r[p] == s[p] && r[q] == s[q - 1]);
            lemma_lex_total(s[j].title, x.title);
            lemma_lex_trans(s[p].title, x.title, s[j].title);
            if j < q - 1 {
                lemma_lex_trans(s[p].title, s[j].title, s[q - 1].title);
            }
        } else if p == j {
            assert(r[q] == s[q - 1]);
            lemma_lex_total(s[j].title, x.title);
            if j < q - 1 {
                lemma_lex_trans(x.title, s[j].title, s[q - 1].title);
            }
        } else {
            assert(r[p] == s[p - 1] && r[q] == s[q - 1]);
        }
    }
}

/// Sorts the theme cards stably by title, as the picker lists them.
pub fn sort_themes(themes: Vec<ThemeInfo>) -> (r: Vec<ThemeInfo>)
    ensures
        theme_views(r@) == by_title(theme_views(themes@)),
        sorted_by_title(theme_views(r@)),
        theme_views(r@).to_multiset() == theme_views(themes@).to_multiset(),
{
    broadcast use vstd::seq_lib::to_multiset_insert;
    let ghost input = themes@;
    let mut rest = themes;
    let mut out: Vec<ThemeInfo> = Vec::new();
    let n = rest.len();
    let mut i: usize = 0;
    assert(theme_views(out@) =~= theme_views(input.take(0)));
    while rest.len() > 0
        invariant
            i + rest@.len() == n,
            n == input.len(),
            rest@ == input.skip(i as int),
            theme_views(out@) == by_title(theme_views(input.take(i as int))),
            sorted_by_title(theme_views(out@)),
            theme_views(out@).to_multiset() == theme_views(input.take(i as int)).to_multiset(),
        decreases rest.len(),
    {
        let t = rest.remove(0);
        assert(t == input[i as int]);
        let ghost tv = theme_view(t);
        let ghost taken = theme_views(input.take(i + 1));
        assert(taken.drop_last() =~= theme_views(input.take(i as int)));
        assert(taken.last() == tv);
        assert(taken =~= theme_views(input.take(i as int)).push(tv));
        let key = chars_of(t.title.as_str());
        let mut j: usize = 0;
        while j < out.len() && lex_le_chars(&chars_of(out[j].title.as_str()), &key)
            invariant
                j <= out.len(),
                key@ == tv.title,
                tv == theme_view(t),
                forall|k: int| 0 <= k < j ==> lex_le(#[trigger] theme_views(out@)[k].title, tv.title),
            decreases out.len() - j,
        {
            assert(theme_views(out@)[j as int] == theme_view(out@[j as int]));
            j += 1;
        }
        let ghost before = theme_views(out@);
        proof {
            if j < out.len() {
                assert(before[j as int] == theme_view(out@[j as int]));
            }
            lemma_insert_by_title_at(before, tv, j as int);
            lemma_insert_keeps_sorted(before, tv, j as int);
            vstd::seq_lib::to_multiset_insert(before, j as int, tv);
            vstd::seq_lib::to_multiset_build(theme_views(input.take(i as int)), tv);
        }
        out.insert(j, t);
        assert(theme_views(out@) =~= before.insert(j as int, tv));
        assert(input.skip(i + 1) =~= input.skip(i as int).drop_first());
        i += 1;
    }
    assert(input.take(n as int) =~= input);
    out
}

} // verus!
