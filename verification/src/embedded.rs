//! The front-end files the daemon serves: which files are served and as what
//! type, how the concatenated style sheet and settings schema are put
//! together, how `index.html` gets the build id on its references, and how the
//! references and imports of the pages are read and resolved.
use crate::bytes::{concat_all, concat_bytes, byte_views, extend_bytes};
use crate::path::{extension, extension_seq};
use crate::text::{
    before_first, before_first_chars, char_views, chars_of, eq_str, ends_with, extend_chars,
    first_at, find_first, has_prefix, has_suffix, is_first_at, lemma_first_at_skip, lex_le, replace_all,
    replace_chars, slice_chars, sort_names, split_chars, split_pieces, starts_with, str_eq,
    string_of, string_views, lemma_string_views_push,
};
use vstd::prelude::*;
use vstd::string::StringSliceAdditionalSpecFns;

verus! {

/// Files with a handler of their own, not in the general table.
pub const WEB_SPECIAL_FILES: [&'static str; 2] = ["index.html", "fence-frame.html"];

/// The directory of the settings-schema parts, served as one
/// `/settings-schema.js`.
pub const WEB_SETTINGS_SCHEMA_DIR: &'static str = "settings-schema";

/// The third-party libraries that `index.html` references and that also get
/// the build id.
pub const VERSIONED_VENDOR: [&'static str; 3] = [
    "/vendor/katex/katex.min.css",
    "/vendor/katex/katex.min.js",
    "/vendor/prism/prism.min.js",
];

/// The directories the scan skips: `vendor/` is served by hand, `css/` and
/// `settings-schema/` are each served as one concatenated file.
pub open spec fn is_skip_dir(name: Seq<char>) -> bool {
    name == "vendor"@ || name == "css"@ || name == WEB_SETTINGS_SCHEMA_DIR@
}

pub fn web_skip_dir(name: &str) -> (r: bool)
    ensures
        r == is_skip_dir(name@),
{
    str_eq(name, "vendor") || str_eq(name, "css") || str_eq(name, WEB_SETTINGS_SCHEMA_DIR)
}

/// The content type a file is served with, by its extension; other
/// extensions are not served.
pub open spec fn content_type_for(ext: Seq<char>) -> Option<Seq<char>> {
    if ext == "js"@ {
        Some("application/javascript; charset=utf-8"@)
    } else if ext == "css"@ {
        Some("text/css; charset=utf-8"@)
    } else if ext == "html"@ {
        Some("text/html; charset=utf-8"@)
    } else if ext == "json"@ {
        Some("application/json; charset=utf-8"@)
    } else if ext == "svg"@ {
        Some("image/svg+xml"@)
    } else if ext == "png"@ {
        Some("image/png"@)
    } else if ext == "webp"@ {
        Some("image/webp"@)
    } else if ext == "woff2"@ {
        Some("font/woff2"@)
    } else {
        None
    }
}

/// The content type of a file path, by its extension.
pub open spec fn path_content_type(path: Seq<char>) -> Option<Seq<char>> {
    match extension_seq(path) {
        Some(e) => content_type_for(e),
        None => None,
    }
}

pub fn web_content_type(path: &str) -> (r: Option<&'static str>)
    ensures
        match r {
            Some(t) => path_content_type(path@) == Some(t@),
            None => path_content_type(path@) is None,
        },
{
    let p = chars_of(path);
    let e = match extension(&p) {
        Some(e) => e,
        None => return None,
    };
    if eq_str(&e, "js") {
        Some("application/javascript; charset=utf-8")
    } else if eq_str(&e, "css") {
        Some("text/css; charset=utf-8")
    } else if eq_str(&e, "html") {
        Some("text/html; charset=utf-8")
    } else if eq_str(&e, "json") {
        Some("application/json; charset=utf-8")
    } else if eq_str(&e, "svg") {
        Some("image/svg+xml")
    } else if eq_str(&e, "png") {
        Some("image/png")
    } else if eq_str(&e, "webp") {
        Some("image/webp")
    } else if eq_str(&e, "woff2") {
        Some("font/woff2")
    } else {
        None
    }
}

/// The entries of a directory listing whose extension is `ext`.
pub open spec fn with_extension(entries: Seq<Seq<char>>, ext: Seq<char>) -> Seq<Seq<char>> {
    entries.filter(|p: Seq<char>| extension_seq(p) == Some(ext))
}

/// The parts that are concatenated, in order: the listed paths with the
/// extension, sorted.
#[verifier::loop_isolation(false)]
pub fn select_parts(entries: &[String], ext: &str) -> (out: Vec<Vec<char>>)
    ensures
        vstd::relations::sorted_by(char_views(out@), |a: Seq<char>, b: Seq<char>| lex_le(a, b)),
        char_views(out@).to_multiset() == with_extension(
            string_views(entries@),
            ext@,
        ).to_multiset(),
{
    let ghost all = string_views(entries@);
    let ev = chars_of(ext);
    let mut kept: Vec<Vec<char>> = Vec::new();
    let mut i: usize = 0;
    while i < entries.len()
        invariant
            i <= entries.len(),
            char_views(kept@) == with_extension(all.take(i as int), ext@),
        decreases entries.len() - i,
    {
        let p = chars_of(entries[i].as_str());
        proof {
            assert(all.take(i + 1).drop_last() =~= all.take(i as int));
            reveal_with_fuel(Seq::filter, 1);
        }
        let keep = match extension(&p) {
            Some(e) => crate::text::chars_eq(&e, &ev),
            None => false,
        };
        if keep {
            kept.push(p);
        }
        assert(char_views(kept@) =~= with_extension(all.take(i + 1), ext@));
        i += 1;
    }
    assert(all.take(entries.len() as int) =~= all);
    sort_names(kept)
}

/// `/styles.css`: the parts, in file-name order, byte for byte.
pub fn web_concat_css(parts: &[Vec<u8>]) -> (out: Vec<u8>)
    ensures
        out@ == concat_all(byte_views(parts@)),
{
    concat_bytes(parts)
}

/// The text that opens the settings schema bundle.
pub const SCHEMA_HEADER: &'static str = "// Generated from web/settings-schema/*.js; edit the parts, not this file.\n\"use strict\";\n\n(function () {\n";

/// The text that closes it.
pub const SCHEMA_FOOTER: &'static str = "})();\n";

/// `/settings-schema.js`: the parts, in file-name order, inside one function
/// scope.
pub fn web_concat_settings_schema(parts: &[Vec<u8>]) -> (out: Vec<u8>)
    ensures
        out@ == SCHEMA_HEADER.spec_bytes() + concat_all(byte_views(parts@)) + SCHEMA_FOOTER.spec_bytes(),
{
    let mut out: Vec<u8> = Vec::new();
    extend_bytes(&mut out, SCHEMA_HEADER.as_bytes());
    let body = concat_bytes(parts);
    extend_bytes(&mut out, &body);
    extend_bytes(&mut out, SCHEMA_FOOTER.as_bytes());
    assert(out@ =~= SCHEMA_HEADER.spec_bytes() + concat_all(byte_views(parts@)) + SCHEMA_FOOTER.spec_bytes());
    out
}

/// `attr="path"`.
pub open spec fn attr_ref(attr: Seq<char>, path: Seq<char>) -> Seq<char> {
    attr + "=\""@ + path + "\""@
}

/// `attr="path?v=build"`.
pub open spec fn attr_ref_versioned(attr: Seq<char>, path: Seq<char>, build_id: Seq<char>) -> Seq<char> {
    attr + "=\""@ + path + "?v="@ + build_id + "\""@
}

/// The page with every `src` and then every `href` reference to `path` given
/// the build id.
pub open spec fn version_path(html: Seq<char>, path: Seq<char>, build_id: Seq<char>) -> Seq<char> {
    let h = replace_all(html, attr_ref("src"@, path), attr_ref_versioned("src"@, path, build_id));
    replace_all(h, attr_ref("href"@, path), attr_ref_versioned("href"@, path, build_id))
}

/// The page with the references to each of the paths versioned, in order.
pub open spec fn version_paths(html: Seq<char>, paths: Seq<Seq<char>>, build_id: Seq<char>) -> Seq<char>
    decreases paths.len(),
{
    if paths.len() == 0 {
        html
    } else {
        version_path(version_paths(html, paths.drop_last(), build_id), paths.last(), build_id)
    }
}

/// Whether a served path is a script or a style sheet.
pub open spec fn is_script_or_style(p: Seq<char>) -> bool {
    has_suffix(p, ".js"@) || has_suffix(p, ".css"@)
}

/// The paths that get the build id: the scripts and style sheets of the asset
/// table, in table order, then the vendored libraries.
pub open spec fn versioned_paths(assets: Seq<Seq<char>>) -> Seq<Seq<char>> {
    assets.filter(|p: Seq<char>| is_script_or_style(p)) + seq![
        VERSIONED_VENDOR[0]@,
        VERSIONED_VENDOR[1]@,
        VERSIONED_VENDOR[2]@,
    ]
}

fn ref_chars(attr: &str, path: &[char]) -> (out: Vec<char>)
    ensures
        out@ == attr_ref(attr@, path@),
{
    let mut v = chars_of(attr);
    crate::text::extend_str(&mut v, "=\"");
    extend_chars(&mut v, path);
    crate::text::extend_str(&mut v, "\"");
    v
}

fn ref_versioned_chars(attr: &str, path: &[char], build_id: &[char]) -> (out: Vec<char>)
    ensures
        out@ == attr_ref_versioned(attr@, path@, build_id@),
{
    let mut v = chars_of(attr);
    crate::text::extend_str(&mut v, "=\"");
    extend_chars(&mut v, path);
    crate::text::extend_str(&mut v, "?v=");
    extend_chars(&mut v, build_id);
    crate::text::extend_str(&mut v, "\"");
    v
}

fn version_one(html: &[char], path: &[char], build_id: &[char]) -> (out: Vec<char>)
    ensures
        out@ == version_path(html@, path@, build_id@),
{
    let from_src = ref_chars("src", path);
    let to_src = ref_versioned_chars("src", path, build_id);
    proof {
        reveal_strlit("src");
        reveal_strlit("href");
    }
    let h = replace_chars(html, &from_src, &to_src);
    let from_href = ref_chars("href", path);
    let to_href = ref_versioned_chars("href", path, build_id);
    replace_chars(&h, &from_href, &to_href)
}

/// The paths of the asset table that are scripts or style sheets, then the
/// vendored libraries.
#[verifier::loop_isolation(false)]
fn versioned_list(assets: &[String]) -> (out: Vec<Vec<char>>)
    ensures
        char_views(out@) == versioned_paths(string_views(assets@)),
{
    let ghost all = string_views(assets@);
    let js = chars_of(".js");
    let css = chars_of(".css");
    let mut out: Vec<Vec<char>> = Vec::new();
    let mut i: usize = 0;
    while i < assets.len()
        invariant
            i <= assets.len(),
            char_views(out@) == all.take(i as int).filter(|p: Seq<char>| is_script_or_style(p)),
        decreases assets.len() - i,
    {
        let p = chars_of(assets[i].as_str());
        proof {
            assert(all.take(i + 1).drop_last() =~= all.take(i as int));
            reveal_with_fuel(Seq::filter, 1);
        }
        if ends_with(&p, &js) || ends_with(&p, &css) {
            out.push(p);
        }
        assert(char_views(out@) =~= all.take(i + 1).filter(|p: Seq<char>| is_script_or_style(p)));
        i += 1;
    }
    assert(all.take(assets.len() as int) =~= all);
    let ghost filtered = char_views(out@);
    out.push(chars_of(VERSIONED_VENDOR[0]));
    out.push(chars_of(VERSIONED_VENDOR[1]));
    out.push(chars_of(VERSIONED_VENDOR[2]));
    assert(char_views(out@) =~= filtered + seq![
        VERSIONED_VENDOR[0]@,
        VERSIONED_VENDOR[1]@,
        VERSIONED_VENDOR[2]@,
    ]);
    out
}

/// `index.html` with `?v=<build>` on every same-origin script and style
/// reference, so an upgrade can never be served from a stale cache.
#[verifier::loop_isolation(false)]
pub fn versioned_index(html: &str, build_id: &str, assets: &[String]) -> (out: String)
    ensures
        out@ == version_paths(html@, versioned_paths(string_views(assets@)), build_id@),
{
    let paths = versioned_list(assets);
    let ghost ps = char_views(paths@);
    let id = chars_of(build_id);
    let mut h = chars_of(html);
    let mut i: usize = 0;
    while i < paths.len()
        invariant
            i <= paths.len(),
            h@ == version_paths(html@, ps.take(i as int), build_id@),
        decreases paths.len() - i,
    {
        assert(ps.take(i + 1).drop_last() =~= ps.take(i as int));
        assert(ps[i as int] == paths@[i as int]@);
        h = version_one(&h, &paths[i], &id);
        i += 1;
    }
    assert(ps.take(paths.len() as int) =~= ps);
    string_of(&h)
}

/// [`versioned_index`], as the tests call it.
pub fn versioned_index_for_test(html: &str, assets: &[String], build_id: &str) -> (out: String)
    ensures
        out@ == version_paths(html@, versioned_paths(string_views(assets@)), build_id@),
{
    versioned_index(html, build_id, assets)
}

/// Every path of the route table: the scanned assets, then the vendored
/// libraries.
pub fn embedded_paths(assets: &[String]) -> (out: Vec<String>)
    ensures
        string_views(out@) == string_views(assets@) + seq![
            VERSIONED_VENDOR[0]@,
            VERSIONED_VENDOR[1]@,
            VERSIONED_VENDOR[2]@,
        ],
{
    let mut out: Vec<String> = Vec::new();
    let mut i: usize = 0;
    while i < assets.len()
        invariant
            i <= assets.len(),
            string_views(out@) == string_views(assets@).take(i as int),
        decreases assets.len() - i,
    {
        let ghost before = out@;
        let c = assets[i].clone();
        out.push(c);
        proof {
            lemma_string_views_push(before, c);
        }
        assert(string_views(out@) =~= string_views(assets@).take(
            i + 1,
        ));
        i += 1;
    }
    let ghost o0 = out@;
    let v0 = VERSIONED_VENDOR[0].to_owned();
    out.push(v0);
    let ghost o1 = out@;
    let v1 = VERSIONED_VENDOR[1].to_owned();
    out.push(v1);
    let ghost o2 = out@;
    let v2 = VERSIONED_VENDOR[2].to_owned();
    out.push(v2);
    proof {
        lemma_string_views_push(o0, v0);
        lemma_string_views_push(o1, v1);
        lemma_string_views_push(o2, v2);
    }
    assert(string_views(out@) =~= string_views(assets@) + seq![
        VERSIONED_VENDOR[0]@,
        VERSIONED_VENDOR[1]@,
        VERSIONED_VENDOR[2]@,
    ]);
    out
}

/// The quoted values that follow each occurrence of `marker`: after each
/// occurrence, the text up to the next `quote` (or the end). The search goes
/// on right after the marker.
pub open spec fn quoted_after(rest: Seq<char>, marker: Seq<char>, quote: char) -> Seq<Seq<char>>
    decreases rest.len(),
{
    if marker.len() == 0 {
        Seq::empty()
    } else {
        match first_at(rest, marker, 0) {
            Some(st) => if 0 <= st && st + marker.len() <= rest.len() {
                let r = rest.skip(st + marker.len());
                seq![before_first(r, seq![quote])] + quoted_after(r, marker, quote)
            } else {
                Seq::empty()
            },
            None => Seq::empty(),
        }
    }
}

#[verifier::loop_isolation(false)]
fn quoted_values(s: &[char], marker: &str, quote: char) -> (out: Vec<Vec<char>>)
    ensures
        char_views(out@) == quoted_after(s@, marker@, quote),
{
    let m = chars_of(marker);
    let mut out: Vec<Vec<char>> = Vec::new();
    if m.len() == 0 {
        return out;
    }
    let q = vec![quote];
    assert(q@ =~= seq![quote]);
    let mut p: usize = 0;
    assert(s@.skip(0) =~= s@);
    while p <= s.len()
        invariant
            p <= s.len(),
            quoted_after(s@, m@, quote) == char_views(out@) + quoted_after(s@.skip(p as int), m@, quote),
        decreases s.len() + 1 - p,
    {
        proof {
            lemma_first_at_skip(s@, m@, p as int);
        }
        match find_first(s, &m, p) {
            None => {
                assert(char_views(out@) + Seq::<Seq<char>>::empty() =~= char_views(out@));
                return out;
            },
            Some(st) => {
                let ghost t = s@.skip(p as int);
                assert(is_first_at(s@, m@, p as int, st as int));
                let r = slice_chars(s, st + m.len(), s.len());
                assert(r@ =~= t.skip(st - p + m@.len()));
                let v = before_first_chars(&r, &q);
                let ghost before = char_views(out@);
                out.push(v);
                assert(char_views(out@) =~= before + seq![v@]);
                assert(t.skip(st - p + m@.len()) =~= s@.skip(st + m@.len()));
                p = st + m.len();
            },
        }
    }
    out
}

/// The ES module specifiers of a source: static `from "…"`, bare
/// `import "…"` and dynamic `import("…")`, in double and then single quotes.
pub open spec fn specifiers_of(source: Seq<char>) -> Seq<Seq<char>> {
    quoted_after(source, "from \""@, '"') + quoted_after(source, "import \""@, '"') + quoted_after(
        source,
        "import(\""@,
        '"',
    ) + quoted_after(source, "from '"@, '\'') + quoted_after(source, "import '"@, '\'')
        + quoted_after(source, "import('"@, '\'')
}

fn push_strings(out: &mut Vec<String>, values: &Vec<Vec<char>>)
    ensures
        string_views(final(out)@) == string_views(old(out)@) + char_views(
            values@,
        ),
{
    let ghost start = string_views(out@);
    let mut i: usize = 0;
    while i < values.len()
        invariant
            i <= values.len(),
            string_views(out@) == start + char_views(values@).take(i as int),
        decreases values.len() - i,
    {
        let ghost before = out@;
        let sv = string_of(&values[i]);
        out.push(sv);
        proof {
            lemma_string_views_push(before, sv);
        }
        assert(string_views(out@) =~= start + char_views(values@).take(i + 1));
        i += 1;
    }
    assert(char_views(values@).take(values.len() as int) =~= char_views(values@));
}

pub fn import_specifiers(source: &str) -> (out: Vec<String>)
    ensures
        string_views(out@) == specifiers_of(source@),
{
    let s = chars_of(source);
    let mut out: Vec<String> = Vec::new();
    assert(string_views(out@) =~= Seq::<Seq<char>>::empty());
    push_strings(&mut out, &quoted_values(&s, "from \"", '"'));
    push_strings(&mut out, &quoted_values(&s, "import \"", '"'));
    push_strings(&mut out, &quoted_values(&s, "import(\"", '"'));
    push_strings(&mut out, &quoted_values(&s, "from '", '\''));
    push_strings(&mut out, &quoted_values(&s, "import '", '\''));
    push_strings(&mut out, &quoted_values(&s, "import('", '\''));
    assert(string_views(out@) =~= specifiers_of(source@));
    out
}

/// A same-origin reference: it starts with `/` but not with `//`.
pub open spec fn is_same_origin(v: Seq<char>) -> bool {
    has_prefix(v, "/"@) && !has_prefix(v, "//"@)
}

/// The same-origin values among `values`, without their query strings.
pub open spec fn local_refs(values: Seq<Seq<char>>) -> Seq<Seq<char>>
    decreases values.len(),
{
    if values.len() == 0 {
        Seq::empty()
    } else {
        local_refs(values.drop_last()) + if is_same_origin(values.last()) {
            seq![before_first(values.last(), seq!['?'])]
        } else {
            Seq::empty()
        }
    }
}

/// The same-origin `src="…"` and then `href="…"` references of a page,
/// without query strings.
pub open spec fn refs_of(html: Seq<char>) -> Seq<Seq<char>> {
    local_refs(quoted_after(html, "src=\""@, '"')) + local_refs(quoted_after(html, "href=\""@, '"'))
}

#[verifier::loop_isolation(false)]
fn push_local_refs(out: &mut Vec<String>, values: &Vec<Vec<char>>)
    ensures
        string_views(final(out)@) == string_views(old(out)@) + local_refs(
            char_views(values@),
        ),
{
    let ghost start = string_views(out@);
    let slash = chars_of("/");
    let two = chars_of("//");
    let q = vec!['?'];
    assert(q@ =~= seq!['?']);
    let mut i: usize = 0;
    assert(start + local_refs(char_views(values@).take(0)) =~= start);
    while i < values.len()
        invariant
            i <= values.len(),
            string_views(out@) == start + local_refs(char_views(values@).take(i as int)),
        decreases values.len() - i,
    {
        let v = &values[i];
        let ghost t = char_views(values@).take(i + 1);
        assert(t.drop_last() =~= char_views(values@).take(i as int));
        assert(t.last() == v@);
        if starts_with(v, &slash) && !starts_with(v, &two) {
            let r = before_first_chars(v, &q);
            let ghost before = out@;
            let sv = string_of(&r);
            out.push(sv);
            proof {
                lemma_string_views_push(before, sv);
            }
            assert(string_views(out@) =~= start + local_refs(t));
        } else {
            assert(string_views(out@) =~= start + local_refs(t));
        }
        i += 1;
    }
    assert(char_views(values@).take(values.len() as int) =~= char_views(values@));
}

pub fn same_origin_refs(html: &str) -> (out: Vec<String>)
    ensures
        string_views(out@) == refs_of(html@),
{
    let s = chars_of(html);
    let mut out: Vec<String> = Vec::new();
    assert(string_views(out@) =~= Seq::<Seq<char>>::empty());
    push_local_refs(&mut out, &quoted_values(&s, "src=\"", '"'));
    push_local_refs(&mut out, &quoted_values(&s, "href=\"", '"'));
    assert(string_views(out@) =~= refs_of(html@));
    out
}

/// The directory parts after following each segment of a relative specifier:
/// `.` stays, `..` goes up (not past the top), a name goes down.
pub open spec fn walk_segments(parts: Seq<Seq<char>>, segs: Seq<Seq<char>>) -> Seq<Seq<char>>
    decreases segs.len(),
{
    if segs.len() == 0 {
        parts
    } else {
        let p = walk_segments(parts, segs.drop_last());
        let s = segs.last();
        if s == "."@ {
            p
        } else if s == ".."@ {
            if p.len() > 0 {
                p.drop_last()
            } else {
                p
            }
        } else {
            p.push(s)
        }
    }
}

/// Parts joined by `/`.
pub open spec fn join_slash(parts: Seq<Seq<char>>) -> Seq<char>
    decreases parts.len(),
{
    if parts.len() == 0 {
        Seq::empty()
    } else if parts.len() == 1 {
        parts[0]
    } else {
        join_slash(parts.drop_last()) + seq!['/'] + parts.last()
    }
}

/// Where a module specifier leads from the module at `from`, as a browser
/// resolves it: an absolute path stays; `./` and `../` specifiers are walked
/// from the module's directory; bare specifiers and other origins are not
/// resolved.
pub open spec fn resolved_import(from: Seq<char>, specifier: Seq<char>) -> Option<Seq<char>> {
    if has_prefix(specifier, "/"@) && !has_prefix(specifier, "//"@) {
        Some(specifier)
    } else if !(has_prefix(specifier, "./"@) || has_prefix(specifier, "../"@)) {
        None
    } else {
        let parts = split_pieces(from, '/');
        Some(join_slash(walk_segments(parts.drop_last(), split_pieces(specifier, '/'))))
    }
}

#[verifier::loop_isolation(false)]
fn join_slash_chars(parts: &Vec<Vec<char>>) -> (out: Vec<char>)
    ensures
        out@ == join_slash(char_views(parts@)),
{
    let mut out: Vec<char> = Vec::new();
    let mut i: usize = 0;
    while i < parts.len()
        invariant
            i <= parts.len(),
            out@ == join_slash(char_views(parts@).take(i as int)),
        decreases parts.len() - i,
    {
        let ghost t = char_views(parts@).take(i + 1);
        assert(t.drop_last() =~= char_views(parts@).take(i as int));
        if i > 0 {
            out.push('/');
        }
        extend_chars(&mut out, &parts[i]);
        assert(out@ =~= join_slash(t));
        i += 1;
    }
    assert(char_views(parts@).take(parts.len() as int) =~= char_views(parts@));
    out
}

#[verifier::loop_isolation(false)]
pub fn resolve(from: &str, specifier: &str) -> (r: Option<String>)
    ensures
        match r {
            Some(p) => resolved_import(from@, specifier@) == Some(p@),
            None => resolved_import(from@, specifier@) is None,
        },
{
    let sv = chars_of(specifier);
    if starts_with(&sv, &chars_of("/")) && !starts_with(&sv, &chars_of("//")) {
        return Some(specifier.to_owned());
    }
    if !(starts_with(&sv, &chars_of("./")) || starts_with(&sv, &chars_of("../"))) {
        return None;
    }
    let fv = chars_of(from);
    let mut parts = split_chars(&fv, '/');
    assert(char_views(parts@) =~= split_pieces(from@, '/'));
    proof {
        crate::text::lemma_split_pieces_len(from@, '/');
    }
    parts.pop();
    let ghost base = char_views(parts@);
    assert(base =~= split_pieces(from@, '/').drop_last());
    let segs = split_chars(&sv, '/');
    let ghost sg = char_views(segs@);
    assert(sg =~= split_pieces(specifier@, '/'));
    let mut i: usize = 0;
    while i < segs.len()
        invariant
            i <= segs.len(),
            char_views(parts@) == walk_segments(base, sg.take(i as int)),
        decreases segs.len() - i,
    {
        assert(sg.take(i + 1).drop_last() =~= sg.take(i as int));
        assert(sg.take(i + 1).last() == segs@[i as int]@);
        let s = &segs[i];
        let ghost before = char_views(parts@);
        if eq_str(s, ".") {
        } else if eq_str(s, "..") {
            if parts.len() > 0 {
                parts.pop();
                assert(char_views(parts@) =~= before.drop_last());
            }
        } else {
            let mut copy: Vec<char> = Vec::new();
            extend_chars(&mut copy, s);
            parts.push(copy);
            assert(char_views(parts@) =~= before.push(s@));
        }
        i += 1;
    }
    assert(sg.take(segs.len() as int) =~= sg);
    Some(string_of(&join_slash_chars(&parts)))
}

} // verus!
