//! Why giving `index.html` the build id a second time changes nothing: every
//! reference pattern `attr="path"` holds exactly two quotes, and its
//! versioned form `attr="path?v=build"` cannot make a new one appear, neither
//! inside itself nor across its edges.
use crate::embedded::{
    attr_ref, attr_ref_versioned, is_script_or_style, version_path, version_paths, versioned_paths,
    VERSIONED_VENDOR,
};
use crate::text::{first_at, has_suffix, is_first_at, lemma_first_at_unique, occurs_at, replace_all};
use vstd::prelude::*;

verus! {

/// `needle` occurs nowhere in `s`.
pub open spec fn free_of(s: Seq<char>, needle: Seq<char>) -> bool {
    forall|j: int| !#[trigger] occurs_at(s, needle, j)
}

/// One of the two attributes that carry a reference.
pub open spec fn is_ref_attr(attr: Seq<char>) -> bool {
    attr == "src"@ || attr == "href"@
}

/// A script or style path with neither a quote nor a query string in it.
pub open spec fn plain_asset_path(p: Seq<char>) -> bool {
    is_script_or_style(p) && !p.contains('"') && !p.contains('?')
}

/// A build id without a quote that does not end with `=`.
pub open spec fn plain_build_id(b: Seq<char>) -> bool {
    !b.contains('"') && (b.len() == 0 || b.last() != '=')
}

proof fn lemma_attr_chars(attr: Seq<char>)
    requires
        is_ref_attr(attr),
    ensures
        3 <= attr.len() <= 4,
        forall|m: int| 0 <= m < attr.len() ==> attr[m] != '"',
        attr[attr.len() - 1] == 'c' || attr[attr.len() - 1] == 'f',
{
    reveal_strlit("src");
    reveal_strlit("href");
}

proof fn lemma_path_ends_in_s(p: Seq<char>)
    requires
        is_script_or_style(p),
    ensures
        p.len() >= 1,
        p[p.len() - 1] == 's',
{
    reveal_strlit(".js");
    reveal_strlit(".css");
    if has_suffix(p, ".js"@) {
        assert(p.skip(p.len() - 3)[2] == p[p.len() - 1]);
    } else {
        assert(p.skip(p.len() - 4)[3] == p[p.len() - 1]);
    }
}

/// The characters of `attr="path"`: its quotes stand right after `attr=` and
/// at the end, and nowhere else.
proof fn lemma_ref_chars(attr: Seq<char>, p: Seq<char>)
    requires
        is_ref_attr(attr),
        !p.contains('"'),
    ensures
        attr_ref(attr, p).len() == attr.len() as int + p.len() + 3,
        attr_ref(attr, p)[attr.len() as int] == '=',
        forall|m: int| 0 <= m < attr.len() ==> #[trigger] attr_ref(attr, p)[m] == attr[m],
        forall|m: int| 0 <= m < p.len() ==> #[trigger] attr_ref(attr, p)[attr.len() as int + 2 + m] == p[m],
        forall|m: int|
            0 <= m < attr_ref(attr, p).len() ==> (#[trigger] attr_ref(attr, p)[m] == '"' <==> (m
                == attr.len() as int + 1 || m == attr_ref(attr, p).len() - 1)),
{
    reveal_strlit("=\"");
    reveal_strlit("\"");
    lemma_attr_chars(attr);
    let g = attr_ref(attr, p);
    assert forall|m: int| 0 <= m < p.len() implies #[trigger] g[attr.len() as int + 2 + m] == p[m] by {}
    assert forall|m: int| 0 <= m < g.len() implies (#[trigger] g[m] == '"' <==> (m == attr.len() as int + 1
        || m == g.len() - 1)) by {
        if m < attr.len() {
            assert(g[m] == attr[m]);
        } else if attr.len() as int + 2 <= m < attr.len() as int + 2 + p.len() {
            assert(g[m] == p[m - attr.len() - 2]);
        }
    }
}

/// The characters of `attr="path?v=build"`: its quotes stand right after
/// `attr=` and at the end, and nowhere else.
proof fn lemma_versioned_chars(attr: Seq<char>, p: Seq<char>, b: Seq<char>)
    requires
        is_ref_attr(attr),
        !p.contains('"'),
        !b.contains('"'),
    ensures
        attr_ref_versioned(attr, p, b).len() == attr.len() as int + p.len() + b.len() + 6,
        attr_ref_versioned(attr, p, b)[attr.len() as int + 2 + p.len()] == '?',
        attr_ref_versioned(attr, p, b)[attr.len() as int + 3 + p.len()] == 'v',
        attr_ref_versioned(attr, p, b)[attr.len() as int + 4 + p.len()] == '=',
        attr_ref_versioned(attr, p, b)[attr.len() as int] == '=',
        b.len() > 0 ==> attr_ref_versioned(attr, p, b)[attr.len() as int + 4 + p.len() + b.len()] == b.last(),
        forall|m: int|
            0 <= m < attr_ref_versioned(attr, p, b).len() ==> (#[trigger] attr_ref_versioned(
                attr,
                p,
                b,
            )[m] == '"' <==> (m == attr.len() as int + 1 || m == attr_ref_versioned(attr, p, b).len() - 1)),
{
    reveal_strlit("=\"");
    reveal_strlit("\"");
    reveal_strlit("?v=");
    lemma_attr_chars(attr);
    let t = attr_ref_versioned(attr, p, b);
    let pb = attr.len() as int + 5 + p.len();
    if b.len() > 0 {
        assert(t[pb + b.len() - 1] == b[b.len() - 1]);
    }
    assert forall|m: int| 0 <= m < t.len() implies (#[trigger] t[m] == '"' <==> (m == attr.len() as int + 1
        || m == t.len() - 1)) by {
        if m < attr.len() {
            assert(t[m] == attr[m]);
        } else if attr.len() as int + 2 <= m < attr.len() as int + 2 + p.len() {
            assert(t[m] == p[m - attr.len() - 2]);
        } else if pb <= m < pb + b.len() {
            assert(t[m] == b[m - pb]);
        }
    }
}

/// Putting one versioned reference between two texts without a pattern
/// makes no occurrence of the pattern.
proof fn lemma_no_cross(
    x: Seq<char>,
    y: Seq<char>,
    ga: Seq<char>,
    q: Seq<char>,
    ta: Seq<char>,
    p: Seq<char>,
    b: Seq<char>,
)
    requires
        is_ref_attr(ga),
        is_ref_attr(ta),
        plain_asset_path(q),
        plain_asset_path(p),
        plain_build_id(b),
        free_of(x, attr_ref(ga, q)),
        free_of(y, attr_ref(ga, q)),
    ensures
        free_of(x + attr_ref_versioned(ta, p, b) + y, attr_ref(ga, q)),
{
    let g = attr_ref(ga, q);
    let t = attr_ref_versioned(ta, p, b);
    let z = x + t + y;
    lemma_ref_chars(ga, q);
    lemma_versioned_chars(ta, p, b);
    lemma_attr_chars(ga);
    lemma_path_ends_in_s(q);
    let lg = g.len() as int;
    let lt = t.len() as int;
    let lx = x.len() as int;
    let qa = ga.len() as int + 1;
    let tq = ta.len() as int + 1;
    assert forall|j: int| !#[trigger] occurs_at(z, g, j) by {
        if occurs_at(z, g, j) {
            assert forall|m: int| 0 <= m < lg implies z[j + m] == #[trigger] g[m] by {
                assert(z.subrange(j, j + lg)[m] == z[j + m]);
            }
            assert(g[lg - 1] == '"');
            assert(g[qa] == '"');
            if j + lg <= lx {
                assert(x.subrange(j, j + lg) =~= z.subrange(j, j + lg));
                assert(occurs_at(x, g, j));
            } else if j >= lx + lt {
                let j2 = j - lx - lt;
                assert(y.subrange(j2, j2 + lg) =~= z.subrange(j, j + lg));
                assert(occurs_at(y, g, j2));
            } else if j < lx {
                let e = j + lg - lx;
                if e <= lt {
                    assert(z[j + lg - 1] == t[e - 1]);
                    assert(t[e - 1] == '"');
                    if e - 1 == tq {
                        assert(z[j + lg - 2] == t[e - 2]);
                        assert(g[lg - 2] == q[q.len() - 1]);
                        assert(false);
                    } else {
                        let gi = lx - j + tq;
                        assert(z[lx + tq] == t[tq]);
                        assert(z[j + gi] == g[gi]);
                        assert(g[gi] == '"');
                        assert(gi == qa);
                        let k = ga.len() as int + 2 + p.len();
                        assert(z[j + k] == g[k]);
                        assert(z[j + k] == t[ta.len() as int + 2 + p.len()]);
                        assert(g[ga.len() as int + 2 + p.len()] == q[p.len() as int]);
                        assert(q.contains('?'));
                    }
                } else {
                    let gi1 = lx - j + tq;
                    let gi2 = lx - j + lt - 1;
                    assert(z[lx + tq] == t[tq]);
                    assert(z[j + gi1] == g[gi1]);
                    assert(z[lx + lt - 1] == t[lt - 1]);
                    assert(z[j + gi2] == g[gi2]);
                    assert(g[gi1] == '"');
                    assert(g[gi2] == '"');
                }
            } else {
                let o = j - lx;
                if o + lg <= lt {
                    assert(z[j + qa] == t[o + qa]);
                    assert(z[j + lg - 1] == t[o + lg - 1]);
                    assert(t[o + qa] == '"');
                    assert(t[o + lg - 1] == '"');
                    let k = ga.len() as int + 2 + p.len();
                    assert(z[j + k] == g[k]);
                    assert(z[j + k] == t[o + k]);
                    assert(g[ga.len() as int + 2 + p.len()] == q[p.len() as int]);
                    assert(q.contains('?'));
                } else {
                    let r = lt - o;
                    assert(z[j + r - 1] == t[lt - 1]);
                    assert(z[j + r - 1] == g[r - 1]);
                    assert(g[r - 1] == '"');
                    assert(r - 1 == qa);
                    assert(z[j + ga.len()] == t[lt - 2]);
                    assert(z[j + ga.len()] == g[ga.len() as int]);
                    assert(z[j + ga.len() - 1] == t[lt - 3]);
                    assert(z[j + ga.len() - 1] == g[ga.len() - 1]);
                    assert(g[ga.len() - 1] == ga[ga.len() - 1]);
                    if b.len() > 0 {
                        assert(t[lt - 2] == b.last());
                    } else {
                        assert(t[lt - 3] == 'v');
                    }
                }
            }
        }
    }
}

/// An occurrence at or after `from` means there is a first one.
proof fn lemma_first_exists(s: Seq<char>, needle: Seq<char>, from: int, i: int)
    requires
        from <= i,
        occurs_at(s, needle, i),
    ensures
        first_at(s, needle, from) is Some,
    decreases i - from,
{
    if exists|j: int| from <= j < i && occurs_at(s, needle, j) {
        let j = choose|j: int| from <= j < i && occurs_at(s, needle, j);
        lemma_first_exists(s, needle, from, j);
    } else {
        assert(is_first_at(s, needle, from, i));
    }
}

/// Replacing a pattern that does not occur changes nothing.
proof fn lemma_replace_absent(s: Seq<char>, f: Seq<char>, t: Seq<char>)
    requires
        f.len() > 0,
        free_of(s, f),
    ensures
        replace_all(s, f, t) == s,
{
    if first_at(s, f, 0) is Some {
        let i = choose|i: int| is_first_at(s, f, 0, i);
        assert(is_first_at(s, f, 0, i));
        assert(occurs_at(s, f, i));
    }
}

/// Versioning the references to one path leaves the text free of a pattern
/// that it was free of, and free of the pattern it replaced.
proof fn lemma_replace_keeps_free(
    s: Seq<char>,
    ta: Seq<char>,
    p: Seq<char>,
    b: Seq<char>,
    ga: Seq<char>,
    q: Seq<char>,
)
    requires
        is_ref_attr(ta),
        is_ref_attr(ga),
        plain_asset_path(p),
        plain_asset_path(q),
        plain_build_id(b),
        attr_ref(ga, q) == attr_ref(ta, p) || free_of(s, attr_ref(ga, q)),
    ensures
        free_of(replace_all(s, attr_ref(ta, p), attr_ref_versioned(ta, p, b)), attr_ref(ga, q)),
    decreases s.len(),
{
    let f = attr_ref(ta, p);
    let t = attr_ref_versioned(ta, p, b);
    let g = attr_ref(ga, q);
    lemma_ref_chars(ta, p);
    lemma_ref_chars(ga, q);
    if first_at(s, f, 0) is Some {
        let i = choose|i: int| is_first_at(s, f, 0, i);
        assert(is_first_at(s, f, 0, i));
        lemma_first_at_unique(s, f, 0, i);
        let x = s.take(i);
        let rest = s.skip(i + f.len());
        assert(replace_all(s, f, t) == x + t + replace_all(rest, f, t));
        assert forall|j: int| !#[trigger] occurs_at(x, g, j) by {
            if occurs_at(x, g, j) {
                assert(s.subrange(j, j + g.len()) =~= x.subrange(j, j + g.len()));
                assert(occurs_at(s, g, j));
            }
        }
        if g != f {
            assert forall|j: int| !#[trigger] occurs_at(rest, g, j) by {
                if occurs_at(rest, g, j) {
                    let k = j + i + f.len();
                    assert(s.subrange(k, k + g.len()) =~= rest.subrange(j, j + g.len()));
                    assert(occurs_at(s, g, k));
                }
            }
        }
        lemma_replace_keeps_free(rest, ta, p, b, ga, q);
        lemma_no_cross(x, replace_all(rest, f, t), ga, q, ta, p, b);
    } else if g == f {
        assert forall|j: int| !#[trigger] occurs_at(s, f, j) by {
            if occurs_at(s, f, j) {
                lemma_first_exists(s, f, 0, j);
            }
        }
    }
}

/// After one path's references are versioned, the page is free of that
/// path's patterns and still free of every pattern it was free of.
proof fn lemma_version_path_free(h: Seq<char>, p: Seq<char>, b: Seq<char>, ga: Seq<char>, q: Seq<char>)
    requires
        is_ref_attr(ga),
        plain_asset_path(p),
        plain_asset_path(q),
        plain_build_id(b),
        q == p || free_of(h, attr_ref(ga, q)),
    ensures
        free_of(version_path(h, p, b), attr_ref(ga, q)),
{
    reveal_strlit("src");
    reveal_strlit("href");
    let src = "src"@;
    let href = "href"@;
    let h1 = replace_all(h, attr_ref(src, p), attr_ref_versioned(src, p, b));
    if q == p && ga == href {
        lemma_replace_keeps_free(h1, href, p, b, ga, q);
    } else {
        lemma_replace_keeps_free(h, src, p, b, ga, q);
        lemma_ref_chars(ga, q);
        lemma_ref_chars(href, p);
        lemma_replace_keeps_free(h1, href, p, b, ga, q);
    }
}

/// The page is free of the reference patterns of every path in `paths`.
pub open spec fn free_of_refs(h: Seq<char>, paths: Seq<Seq<char>>) -> bool {
    forall|m: int, ga: Seq<char>|
        0 <= m < paths.len() && is_ref_attr(ga) ==> free_of(h, #[trigger] attr_ref(ga, paths[m]))
}

/// Every path is a script or style path with neither a quote nor a query
/// string.
pub open spec fn plain_asset_paths(paths: Seq<Seq<char>>) -> bool {
    forall|m: int| 0 <= m < paths.len() ==> plain_asset_path(#[trigger] paths[m])
}

proof fn lemma_versioned_page_free(html: Seq<char>, paths: Seq<Seq<char>>, b: Seq<char>)
    requires
        plain_asset_paths(paths),
        plain_build_id(b),
    ensures
        free_of_refs(version_paths(html, paths, b), paths),
    decreases paths.len(),
{
    if paths.len() > 0 {
        let init = paths.drop_last();
        lemma_versioned_page_free(html, init, b);
        let h0 = version_paths(html, init, b);
        assert forall|m: int, ga: Seq<char>| 0 <= m < paths.len() && is_ref_attr(ga) implies free_of(
            version_paths(html, paths, b),
            #[trigger] attr_ref(ga, paths[m]),
        ) by {
            assert(plain_asset_path(paths[m]));
            assert(plain_asset_path(paths.last()));
            if m < paths.len() - 1 {
                assert(init[m] == paths[m]);
                assert(free_of(h0, attr_ref(ga, init[m])));
            }
            lemma_version_path_free(h0, paths.last(), b, ga, paths[m]);
        }
    }
}

proof fn lemma_free_page_fixed(h: Seq<char>, paths: Seq<Seq<char>>, b: Seq<char>)
    requires
        plain_asset_paths(paths),
        free_of_refs(h, paths),
    ensures
        version_paths(h, paths, b) == h,
    decreases paths.len(),
{
    if paths.len() > 0 {
        let init = paths.drop_last();
        let p = paths.last();
        assert forall|m: int, ga: Seq<char>| 0 <= m < init.len() && is_ref_attr(ga) implies free_of(
            h,
            #[trigger] attr_ref(ga, init[m]),
        ) by {
            assert(init[m] == paths[m]);
            assert(free_of(h, attr_ref(ga, paths[m])));
        }
        lemma_free_page_fixed(h, init, b);
        reveal_strlit("src");
        reveal_strlit("href");
        let src = "src"@;
        let href = "href"@;
        assert(plain_asset_path(p));
        assert(free_of(h, attr_ref(src, paths[paths.len() - 1])));
        assert(free_of(h, attr_ref(href, paths[paths.len() - 1])));
        lemma_ref_chars(src, p);
        lemma_ref_chars(href, p);
        lemma_replace_absent(h, attr_ref(src, p), attr_ref_versioned(src, p, b));
        lemma_replace_absent(h, attr_ref(href, p), attr_ref_versioned(href, p, b));
    }
}

/// Giving a page the build id a second time changes nothing, for script and
/// style paths without quotes or query strings and a build id without quotes
/// that does not end with `=`.
pub proof fn law_versioning_is_idempotent(html: Seq<char>, paths: Seq<Seq<char>>, build_id: Seq<char>)
    requires
        plain_asset_paths(paths),
        plain_build_id(build_id),
    ensures
        version_paths(version_paths(html, paths, build_id), paths, build_id) == version_paths(
            html,
            paths,
            build_id,
        ),
{
    lemma_versioned_page_free(html, paths, build_id);
    lemma_free_page_fixed(version_paths(html, paths, build_id), paths, build_id);
}

/// A page with no `src="…"` or `href="…"` reference to any of the paths is
/// served exactly as it is.
pub proof fn law_page_without_refs_is_unchanged(html: Seq<char>, paths: Seq<Seq<char>>, build_id: Seq<char>)
    requires
        plain_asset_paths(paths),
        free_of_refs(html, paths),
    ensures
        version_paths(html, paths, build_id) == html,
{
    lemma_free_page_fixed(html, paths, build_id);
}

/// What a filter keeps comes from the sequence and passes the predicate.
proof fn lemma_filter_from(s: Seq<Seq<char>>, pred: spec_fn(Seq<char>) -> bool, i: int)
    requires
        0 <= i < s.filter(pred).len(),
    ensures
        pred(s.filter(pred)[i]),
        exists|j: int| 0 <= j < s.len() && s[j] == s.filter(pred)[i],
    decreases s.len(),
{
    reveal_with_fuel(Seq::filter, 1);
    let init = s.drop_last();
    let f0 = init.filter(pred);
    if s.len() > 0 {
        if i < f0.len() {
            lemma_filter_from(init, pred, i);
            let j = choose|j: int| 0 <= j < init.len() && init[j] == init.filter(pred)[i];
            assert(s[j] == init[j]);
        } else {
            assert(s[s.len() - 1] == s.filter(pred)[i]);
        }
    }
}

proof fn lemma_vendor_path_plain(v: Seq<char>, n: int)
    requires
        n == 3 || n == 4,
        v.len() >= n,
        n == 3 ==> v.skip(v.len() - 3) == ".js"@,
        n == 4 ==> v.skip(v.len() - 4) == ".css"@,
        forall|i: int| 0 <= i < v.len() ==> v[i] != '"' && v[i] != '?',
    ensures
        plain_asset_path(v),
{
}

proof fn lemma_versioned_paths_plain(assets: Seq<Seq<char>>)
    requires
        forall|m: int| 0 <= m < assets.len() ==> !(#[trigger] assets[m]).contains('"') && !assets[m].contains('?'),
    ensures
        plain_asset_paths(versioned_paths(assets)),
{
    let pred = |p: Seq<char>| is_script_or_style(p);
    let kept = assets.filter(pred);
    let ps = versioned_paths(assets);
    assert(ps == kept + seq![VERSIONED_VENDOR[0]@, VERSIONED_VENDOR[1]@, VERSIONED_VENDOR[2]@]);
    reveal_strlit(".js");
    reveal_strlit(".css");
    reveal_strlit("/vendor/katex/katex.min.css");
    reveal_strlit("/vendor/katex/katex.min.js");
    reveal_strlit("/vendor/prism/prism.min.js");
    let v0 = VERSIONED_VENDOR[0]@;
    let v1 = VERSIONED_VENDOR[1]@;
    let v2 = VERSIONED_VENDOR[2]@;
    assert(v0 == "/vendor/katex/katex.min.css"@);
    assert(v1 == "/vendor/katex/katex.min.js"@);
    assert(v2 == "/vendor/prism/prism.min.js"@);
    assert(v0.skip(v0.len() - 4) =~= ".css"@);
    assert(v1.skip(v1.len() - 3) =~= ".js"@);
    assert(v2.skip(v2.len() - 3) =~= ".js"@);
    lemma_vendor_path_plain(v0, 4);
    lemma_vendor_path_plain(v1, 3);
    lemma_vendor_path_plain(v2, 3);
    assert forall|m: int| 0 <= m < ps.len() implies plain_asset_path(#[trigger] ps[m]) by {
        if m < kept.len() {
            lemma_filter_from(assets, pred, m);
            let j = choose|j: int| 0 <= j < assets.len() && assets[j] == kept[m];
            assert(!assets[j].contains('"'));
        }
    }
}

/// [`versioned_index`](crate::embedded::versioned_index) applied to its own
/// output changes nothing, when no path of the asset table holds a quote or
/// a query string and the build id holds no quote and does not end with `=`.
pub proof fn law_versioned_index_is_idempotent(html: Seq<char>, assets: Seq<Seq<char>>, build_id: Seq<char>)
    requires
        forall|m: int| 0 <= m < assets.len() ==> !(#[trigger] assets[m]).contains('"') && !assets[m].contains('?'),
        plain_build_id(build_id),
    ensures
        version_paths(version_paths(html, versioned_paths(assets), build_id), versioned_paths(assets), build_id)
            == version_paths(html, versioned_paths(assets), build_id),
{
    lemma_versioned_paths_plain(assets);
    law_versioning_is_idempotent(html, versioned_paths(assets), build_id);
}

} // verus!
