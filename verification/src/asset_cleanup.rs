//! Which files of the managed persona image directory a save removes: an
//! image that the personas no longer reference goes when it was referenced
//! before or is a day old; an abandoned upload goes after a day; anything
//! else stays.
use crate::extensions::{strip_prefix, strip_prefix_seq};
use crate::persona::{opt_chars, PromptDocument};
use crate::persona_assets::{is_managed_asset_name, managed_asset_name};
use crate::text::{chars_of, has_prefix, starts_with, str_eq, string_of, string_views};
use vstd::prelude::*;

verus! {

/// The image references of the personas, in order: each document's avatar,
/// then its board image, where set.
pub open spec fn image_refs(docs: Seq<PromptDocument>) -> Seq<Seq<char>>
    decreases docs.len(),
{
    if docs.len() == 0 {
        seq![]
    } else {
        let d = docs.last();
        let before = image_refs(docs.drop_last());
        let with_avatar = match opt_chars(d.avatar_path) {
            Some(a) => before.push(a),
            None => before,
        };
        match opt_chars(d.board_image_path) {
            Some(b) => with_avatar.push(b),
            None => with_avatar,
        }
    }
}

fn push_opt(out: &mut Vec<String>, o: &Option<String>)
    ensures
        string_views(final(out)@) == match opt_chars(*o) {
            Some(s) => string_views(old(out)@).push(s),
            None => string_views(old(out)@),
        },
{
    match o {
        Some(s) => {
            let ghost before = string_views(out@);
            out.push(s.clone());
            assert(string_views(out@) =~= before.push(s@));
        },
        None => {},
    }
}

/// The image references of the personas.
pub fn persona_image_refs(docs: &Vec<PromptDocument>) -> (r: Vec<String>)
    ensures
        string_views(r@) == image_refs(docs@),
{
    let mut out: Vec<String> = Vec::new();
    let mut i: usize = 0;
    while i < docs.len()
        invariant
            i <= docs.len(),
            string_views(out@) == image_refs(docs@.take(i as int)),
        decreases docs.len() - i,
    {
        let ghost t = docs@.take(i + 1);
        assert(t.drop_last() =~= docs@.take(i as int));
        assert(t.last() == docs@[i as int]);
        push_opt(&mut out, &docs[i].avatar_path);
        push_opt(&mut out, &docs[i].board_image_path);
        i += 1;
    }
    assert(docs@.take(docs.len() as int) =~= docs@);
    out
}

/// The names, relative to the managed directory, of the resolved image
/// paths that lie in it, in order.
pub open spec fn names_in_dir(paths: Seq<Seq<char>>, dir: Seq<char>) -> Seq<Seq<char>>
    decreases paths.len(),
{
    if paths.len() == 0 {
        seq![]
    } else {
        let before = names_in_dir(paths.drop_last(), dir);
        match strip_prefix_seq(paths.last(), dir) {
            Some(rel) => before.push(rel),
            None => before,
        }
    }
}

/// The names of the referenced images in the managed directory, from the
/// resolved paths of the references.
pub fn referenced_asset_names(resolved: &Vec<String>, avatars_dir: &str) -> (r: Vec<String>)
    ensures
        string_views(r@) == names_in_dir(string_views(resolved@), avatars_dir@),
{
    let ghost rv = string_views(resolved@);
    let dir = chars_of(avatars_dir);
    let mut out: Vec<String> = Vec::new();
    let mut i: usize = 0;
    while i < resolved.len()
        invariant
            i <= resolved.len(),
            rv == string_views(resolved@),
            rv.len() == resolved.len(),
            dir@ == avatars_dir@,
            string_views(out@) == names_in_dir(rv.take(i as int), avatars_dir@),
        decreases resolved.len() - i,
    {
        let ghost t = rv.take(i + 1);
        assert(t.drop_last() =~= rv.take(i as int));
        assert(t.last() == resolved@[i as int]@);
        match strip_prefix(&chars_of(resolved[i].as_str()), &dir) {
            Some(rel) => {
                let ghost before = string_views(out@);
                out.push(string_of(&rel));
                assert(string_views(out@) =~= before.push(rel@));
            },
            None => {},
        }
        i += 1;
    }
    assert(rv.take(resolved.len() as int) =~= rv);
    out
}

/// Whether a file of the managed directory is removed: not a directory; an
/// upload left behind (`.upload-…`) once a day old; a managed image that
/// the personas no longer reference, when it was referenced before the
/// save or is a day old.
pub open spec fn removes(name: Seq<char>, is_file: bool, stale: bool, previous: Seq<Seq<char>>, current: Seq<Seq<char>>) -> bool {
    if !is_file {
        false
    } else if has_prefix(name, ".upload-"@) {
        stale
    } else if !is_managed_asset_name(name) || current.contains(name) {
        false
    } else {
        previous.contains(name) || stale
    }
}

fn listed(v: &Vec<String>, s: &str) -> (r: bool)
    ensures
        r == string_views(v@).contains(s@),
{
    let ghost sv = string_views(v@);
    let mut i: usize = 0;
    while i < v.len()
        invariant
            i <= v.len(),
            sv == string_views(v@),
            sv.len() == v.len(),
            forall|k: int| 0 <= k < i ==> sv[k] != s@,
        decreases v.len() - i,
    {
        assert(sv[i as int] == v@[i as int]@);
        if str_eq(v[i].as_str(), s) {
            return true;
        }
        i += 1;
    }
    false
}

/// Whether the cleanup after a save removes a file of the managed image
/// directory (`stale`: it is at least a day old; `previous` and `current`:
/// the names the personas referenced before and after the save).
pub fn cleanup_removes(name: &str, is_file: bool, stale: bool, previous: &Vec<String>, current: &Vec<String>) -> (r: bool)
    ensures
        r == removes(name@, is_file, stale, string_views(previous@), string_views(current@)),
{
    if !is_file {
        return false;
    }
    if starts_with(&chars_of(name), &chars_of(".upload-")) {
        return stale;
    }
    if !managed_asset_name(name) || listed(current, name) {
        return false;
    }
    listed(previous, name) || stale
}

/// A managed image that the personas still reference is never removed.
pub proof fn law_referenced_images_stay(name: Seq<char>, is_file: bool, stale: bool, previous: Seq<Seq<char>>, current: Seq<Seq<char>>)
    requires
        current.contains(name),
        is_managed_asset_name(name),
    ensures
        !removes(name, is_file, stale, previous, current),
{
    if has_prefix(name, ".upload-"@) {
        reveal_strlit(".upload-");
        assert(".upload-"@[0] == '.');
        assert(name.take(".upload-"@.len() as int)[0] == name[0]);
        assert(name[0] == '.');
        assert(name[64] == '.');
        assert(crate::persona_assets::is_hex_char(name[0]));
    }
}

} // verus!
