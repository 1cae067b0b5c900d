//! The development mode of the WebUI, where assets are read from a
//! directory on every request: which request paths may name a file there.
//! Whether the file is really inside the directory (after symbolic links)
//! is for the caller to check on disk.
use crate::embedded::{is_skip_dir, path_content_type, web_content_type, web_skip_dir, WEB_SPECIAL_FILES};
use crate::path::{comps_view, components, components_seq, Comp, PathComp};
use crate::assets::{embedded_asset, embedded_outcome, opt_view, AssetResponse};
use crate::persona_assets::{hex_lower, lower_hex, sha256_digest, sha256_of};
use crate::text::{chars_of, extend_str, slice_chars, str_eq, string_of};
use vstd::prelude::*;

verus! {

/// Whether a relative path's components are all plain names, with no
/// skipped directory among the directories.
pub open spec fn plain_file_path(cs: Seq<Comp>) -> bool {
    forall|k: int|
        0 <= k < cs.len() ==> (#[trigger] cs[k]) is Normal && (k + 1 < cs.len() ==> !is_skip_dir(cs[k]->Normal_0))
}

/// The file a development request path names, with its content type: the
/// path after its leading `/`, not empty and not a file with a handler of
/// its own, made only of plain names with no skipped directory above the
/// file, and of a type that is served.
pub open spec fn dev_asset_of(url_path: Seq<char>) -> Option<(Seq<char>, Seq<char>)> {
    if url_path.len() == 0 || url_path[0] != '/' {
        None
    } else {
        let rel = url_path.drop_first();
        if rel.len() == 0 || rel == WEB_SPECIAL_FILES[0]@ || rel == WEB_SPECIAL_FILES[1]@ {
            None
        } else if !plain_file_path(components_seq(rel)) {
            None
        } else {
            match path_content_type(rel) {
                Some(t) => Some((rel, t)),
                None => None,
            }
        }
    }
}

fn plain_components(cs: &Vec<PathComp>) -> (r: bool)
    ensures
        r == plain_file_path(comps_view(cs@)),
{
    let ghost cv = comps_view(cs@);
    let mut k: usize = 0;
    while k < cs.len()
        invariant
            k <= cs.len(),
            cv == comps_view(cs@),
            cv.len() == cs.len(),
            forall|j: int|
                0 <= j < k ==> (#[trigger] cv[j]) is Normal && (j + 1 < cv.len() ==> !is_skip_dir(cv[j]->Normal_0)),
        decreases cs.len() - k,
    {
        assert(cv[k as int] == cs@[k as int]@);
        match &cs[k] {
            PathComp::Normal(name) => {
                if k + 1 < cs.len() && web_skip_dir(string_of(name.as_slice()).as_str()) {
                    return false;
                }
            },
            _ => return false,
        }
        k += 1;
    }
    true
}

/// The file (relative to the development directory) and content type a
/// request path names, if it may name one.
pub fn dev_asset_path(url_path: &str) -> (r: Option<(String, &'static str)>)
    ensures
        match r {
            Some((rel, t)) => dev_asset_of(url_path@) == Some((rel@, t@)),
            None => dev_asset_of(url_path@) is None,
        },
{
    let v = chars_of(url_path);
    if v.len() == 0 || v[0] != '/' {
        return None;
    }
    let relv = slice_chars(&v, 1, v.len());
    assert(relv@ =~= url_path@.drop_first());
    let rel = string_of(&relv);
    if rel.as_str().is_empty() || str_eq(rel.as_str(), WEB_SPECIAL_FILES[0]) || str_eq(
        rel.as_str(),
        WEB_SPECIAL_FILES[1],
    ) {
        return None;
    }
    let cs = components(&relv);
    if !plain_components(&cs) {
        return None;
    }
    match web_content_type(rel.as_str()) {
        Some(t) => Some((rel, t)),
        None => None,
    }
}


/// The ETag of a development asset: `"dev-` and the first 12 bytes of the
/// SHA-256 of its content in lowercase hexadecimal, then `"`; it changes
/// whenever the file does.
pub open spec fn dev_etag_of(body: Seq<u8>) -> Seq<char> {
    seq!['"'] + "dev-"@ + lower_hex(sha256_of(body).take(12)) + seq!['"']
}

/// The ETag of a development asset.
pub fn dev_etag(body: &[u8]) -> (r: String)
    ensures
        r@ == dev_etag_of(body@),
{
    let digest = sha256_digest(body);
    let mut first: Vec<u8> = Vec::new();
    let mut k: usize = 0;
    while k < 12
        invariant
            k <= 12,
            digest@.len() == 32,
            first@ == digest@.take(k as int),
        decreases 12 - k,
    {
        first.push(digest[k]);
        assert(digest@.take(k + 1) =~= digest@.take(k as int).push(digest@[k as int]));
        k += 1;
    }
    let hex = hex_lower(&first);
    let mut v: Vec<char> = Vec::new();
    v.push('"');
    extend_str(&mut v, "dev-");
    extend_str(&mut v, hex.as_str());
    v.push('"');
    assert(v@ =~= dev_etag_of(body@));
    string_of(&v)
}

/// A development asset's answer: as an embedded one, with its content's
/// ETag.
pub fn dev_asset_response(if_none_match: Option<&str>, body: &[u8], content_type: &str) -> (r: AssetResponse)
    ensures
        r.headers.wf(),
        (r.status, r.headers.view(), r.body@) == embedded_outcome(
            opt_view(if_none_match),
            body@,
            content_type@,
            dev_etag_of(body@),
        ),
{
    let etag = dev_etag(body);
    embedded_asset(if_none_match, body, content_type, etag.as_str())
}

} // verus!
