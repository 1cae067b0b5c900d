//! The extensions page: which installed package a script or skill file came
//! from, which file an MCP server runs, where such a server came from, and
//! which repositories may be checked for updates.
use crate::api::{ApiError, BAD_REQUEST};
use crate::path::{
    comp_eq, comps_view, components, components_seq, is_rooted, path_starts_with, path_starts_with_seq,
    render, render_comps, Comp, PathComp,
};
use crate::text::{chars_of, extend_str, has_prefix, starts_with, str_eq, string_of, string_views};
use vstd::prelude::*;

verus! {

/// `Path::strip_prefix`, written back as text: the components of `p` after
/// those of `base`, when `base` is a prefix of `p`.
pub open spec fn strip_prefix_seq(p: Seq<char>, base: Seq<char>) -> Option<Seq<char>> {
    if path_starts_with_seq(p, base) {
        Some(render_comps(components_seq(p).skip(components_seq(base).len() as int)))
    } else {
        None
    }
}

fn copy_comp(c: &PathComp) -> (r: PathComp)
    ensures
        r@ == c@,
{
    match c {
        PathComp::Root => PathComp::Root,
        PathComp::Cur => PathComp::Cur,
        PathComp::Parent => PathComp::Parent,
        PathComp::Normal(n) => {
            let mut m: Vec<char> = Vec::new();
            crate::text::extend_chars(&mut m, n.as_slice());
            PathComp::Normal(m)
        },
    }
}

/// `Path::strip_prefix` on character vectors.
pub fn strip_prefix(p: &[char], base: &[char]) -> (r: Option<Vec<char>>)
    ensures
        match r {
            Some(rest) => strip_prefix_seq(p@, base@) == Some(rest@),
            None => strip_prefix_seq(p@, base@) is None,
        },
{
    if !path_starts_with(p, base) {
        return None;
    }
    let a = components(p);
    let b = components(base);
    let ghost av = comps_view(a@);
    let mut rest: Vec<PathComp> = Vec::new();
    let mut i: usize = b.len();
    proof {
        assert(comps_view(a@) == components_seq(p@));
        assert(comps_view(b@) == components_seq(base@));
    }
    while i < a.len()
        invariant
            b.len() <= i <= a.len(),
            av == comps_view(a@),
            comps_view(rest@) == av.subrange(b.len() as int, i as int),
        decreases a.len() - i,
    {
        let ghost before = comps_view(rest@);
        rest.push(copy_comp(&a[i]));
        assert(comps_view(rest@) =~= before.push(av[i as int]));
        assert(av.subrange(b.len() as int, i + 1) =~= av.subrange(b.len() as int, i as int).push(av[i as int]));
        i += 1;
    }
    assert(av.subrange(b.len() as int, a.len() as int) =~= av.skip(b.len() as int));
    Some(render(&rest))
}

/// Whether a package's files hold the file `rel` or a file under the
/// directory `rel`.
pub open spec fn holds_file(files: Seq<Seq<char>>, rel: Seq<char>) -> bool {
    exists|k: int| 0 <= k < files.len() && (#[trigger] files[k] == rel || has_prefix(files[k], rel + seq!['/']))
}

/// The first package, in the lock file's order, that holds `rel`.
pub open spec fn first_owner(packages: Seq<(Seq<char>, Seq<Seq<char>>)>, rel: Seq<char>) -> Option<Seq<char>>
    decreases packages.len(),
{
    if packages.len() == 0 {
        None
    } else if holds_file(packages[0].1, rel) {
        Some(packages[0].0)
    } else {
        first_owner(packages.drop_first(), rel)
    }
}

/// The views of the lock file's packages: name and installed files.
pub open spec fn package_views(v: Seq<(String, Vec<String>)>) -> Seq<(Seq<char>, Seq<Seq<char>>)> {
    v.map_values(|p: (String, Vec<String>)| (p.0@, string_views(p.1@)))
}

fn holds(files: &Vec<String>, rel: &[char]) -> (r: bool)
    ensures
        r == holds_file(string_views(files@), rel@),
{
    let mut dir: Vec<char> = Vec::new();
    crate::text::extend_chars(&mut dir, rel);
    dir.push('/');
    assert(dir@ =~= rel@ + seq!['/']);
    let ghost fv = string_views(files@);
    let mut k: usize = 0;
    while k < files.len()
        invariant
            k <= files.len(),
            fv == string_views(files@),
            fv.len() == files.len(),
            dir@ == rel@ + seq!['/'],
            forall|j: int| 0 <= j < k ==> !(#[trigger] fv[j] == rel@ || has_prefix(fv[j], rel@ + seq!['/'])),
        decreases files.len() - k,
    {
        let f = chars_of(files[k].as_str());
        assert(fv[k as int] == f@);
        if crate::text::chars_eq(&f, rel) || starts_with(&f, &dir) {
            return true;
        }
        k += 1;
    }
    false
}

/// The package a file under the GQY root was installed by: the first
/// package whose files hold the path relative to the root, or a directory
/// above it. Files outside the root belong to none.
#[verifier::loop_isolation(false)]
pub fn package_owner(root_dir: &str, packages: &Vec<(String, Vec<String>)>, absolute: &str) -> (r: Option<String>)
    ensures
        match r {
            Some(name) => ({
                let rel = strip_prefix_seq(absolute@, root_dir@);
                rel is Some && first_owner(package_views(packages@), rel.unwrap()) == Some(name@)
            }),
            None => ({
                let rel = strip_prefix_seq(absolute@, root_dir@);
                rel is None || first_owner(package_views(packages@), rel.unwrap()) is None
            }),
        },
{
    let rel = match strip_prefix(&chars_of(absolute), &chars_of(root_dir)) {
        Some(rel) => rel,
        None => return None,
    };
    let ghost pv = package_views(packages@);
    let mut i: usize = 0;
    assert(pv.skip(0) =~= pv);
    while i < packages.len()
        invariant
            i <= packages.len(),
            pv == package_views(packages@),
            pv.len() == packages.len(),
            first_owner(pv, rel@) == first_owner(pv.skip(i as int), rel@),
        decreases packages.len() - i,
    {
        assert(pv.skip(i as int)[0] == pv[i as int]);
        assert(pv[i as int] == (packages@[i as int].0@, string_views(packages@[i as int].1@)));
        if holds(&packages[i].1, &rel) {
            return Some(packages[i].0.clone());
        }
        assert(pv.skip(i as int).drop_first() =~= pv.skip(i + 1));
        i += 1;
    }
    None
}

/// The file an MCP server runs, as an index into its arguments followed by
/// its command: the first that is an absolute path that exists (`exists`
/// tells, in that order). `None` for a bare command such as `npx package`.
pub open spec fn mcp_file_index(candidates: Seq<Seq<char>>, exists: Seq<bool>) -> Option<int>
    decreases candidates.len(),
{
    if candidates.len() == 0 {
        None
    } else if is_rooted(candidates[0]) && exists[0] {
        Some(0)
    } else {
        match mcp_file_index(candidates.drop_first(), exists.drop_first()) {
            Some(k) => Some(k + 1),
            None => None,
        }
    }
}

/// The file an MCP server lands on: the first of its arguments, then its
/// command, that is an absolute path and exists (`exists` holds, in that
/// order, whether each exists).
pub fn mcp_path(args: &Vec<String>, command: &str, exists: &Vec<bool>) -> (r: Option<String>)
    requires
        exists.len() == args.len() + 1,
    ensures
        ({
            let candidates = string_views(args@).push(command@);
            match mcp_file_index(candidates, exists@) {
                Some(k) => r is Some && r.unwrap()@ == candidates[k],
                None => r is None,
            }
        }),
{
    let ghost candidates = string_views(args@).push(command@);
    let mut i: usize = 0;
    assert(candidates.skip(0) =~= candidates);
    assert(exists@.skip(0) =~= exists@);
    while i <= args.len()
        invariant
            i <= args.len() + 1,
            exists.len() == args.len() + 1,
            candidates == string_views(args@).push(command@),
            candidates.len() == args.len() + 1,
            mcp_file_index(candidates, exists@) == match mcp_file_index(
                candidates.skip(i as int),
                exists@.skip(i as int),
            ) {
                Some(k) => Some(k + i),
                None => None,
            },
        decreases args.len() + 1 - i,
    {
        let cand: &str = if i < args.len() {
            args[i].as_str()
        } else {
            command
        };
        assert(candidates.skip(i as int)[0] == cand@);
        assert(exists@.skip(i as int)[0] == exists@[i as int]);
        let v = chars_of(cand);
        if v.len() > 0 && v[0] == '/' && exists[i] {
            return Some(cand.to_owned());
        }
        assert(candidates.skip(i as int).drop_first() =~= candidates.skip(i + 1));
        assert(exists@.skip(i as int).drop_first() =~= exists@.skip(i + 1));
        i += 1;
    }
    None
}

/// Directories whose programs are interpreters, not extensions.
pub const SYSTEM_BIN_DIRS: [&'static str; 5] = [
    "/usr/bin/",
    "/bin/",
    "/usr/local/bin/",
    "/opt/homebrew/bin/",
    "/opt/homebrew/opt/",
];

/// Whether a path lies under one of [`SYSTEM_BIN_DIRS`], component-wise.
pub open spec fn is_system_interpreter_path(p: Seq<char>) -> bool {
    exists|k: int| 0 <= k < 5 && path_starts_with_seq(p, #[trigger] SYSTEM_BIN_DIRS[k]@)
}

/// Whether a path is a system interpreter such as `/usr/bin/python3`.
pub fn is_system_interpreter(path: &str) -> (r: bool)
    ensures
        r == is_system_interpreter_path(path@),
{
    let p = chars_of(path);
    let mut k: usize = 0;
    while k < 5
        invariant
            k <= 5,
            p@ == path@,
            forall|j: int| 0 <= j < k ==> !path_starts_with_seq(path@, #[trigger] SYSTEM_BIN_DIRS[j]@),
        decreases 5 - k,
    {
        if path_starts_with(&p, &chars_of(SYSTEM_BIN_DIRS[k])) {
            return true;
        }
        k += 1;
    }
    false
}

/// Where an extension came from.
pub struct Origin {
    /// `managed`, `git`, …
    pub kind: String,
    pub dir: Option<String>,
    pub remote: Option<String>,
    pub commit: Option<String>,
    pub deps: Vec<String>,
}

fn copy_opt(o: &Option<String>) -> (r: Option<String>)
    ensures
        r == *o,
{
    match o {
        Some(s) => Some(s.clone()),
        None => None,
    }
}

/// The origin of an MCP server: what was detected for its file, unless it
/// has none or runs a system interpreter, in which case it is managed
/// (no directory, remote, commit or dependencies).
pub fn mcp_origin(path: Option<&str>, detected: &Origin) -> (r: Origin)
    ensures
        match path {
            Some(p) if !is_system_interpreter_path(p@) => r.kind@ == detected.kind@ && r.dir == detected.dir
                && r.remote == detected.remote && r.commit == detected.commit && string_views(r.deps@)
                == string_views(detected.deps@),
            _ => r.kind@ == "managed"@ && r.dir is None && r.remote is None && r.commit is None && r.deps@.len()
                == 0,
        },
{
    match path {
        Some(p) => if !is_system_interpreter(p) {
            let mut deps: Vec<String> = Vec::new();
            let mut k: usize = 0;
            while k < detected.deps.len()
                invariant
                    k <= detected.deps.len(),
                    string_views(deps@) == string_views(detected.deps@).take(k as int),
                decreases detected.deps.len() - k,
            {
                let ghost before = string_views(deps@);
                deps.push(detected.deps[k].clone());
                assert(string_views(deps@) =~= before.push(detected.deps@[k as int]@));
                assert(string_views(detected.deps@).take(k + 1) =~= string_views(detected.deps@).take(k as int).push(
                    detected.deps@[k as int]@,
                ));
                k += 1;
            }
            assert(string_views(detected.deps@).take(detected.deps.len() as int) =~= string_views(detected.deps@));
            return Origin {
                kind: detected.kind.clone(),
                dir: copy_opt(&detected.dir),
                remote: copy_opt(&detected.remote),
                commit: copy_opt(&detected.commit),
                deps,
            };
        },
        None => {},
    }
    Origin { kind: "managed".to_owned(), dir: None, remote: None, commit: None, deps: Vec::new() }
}

/// Whether some origin is a git checkout in exactly `dir`.
pub open spec fn known_git(origins: Seq<Origin>, dir: Seq<char>) -> bool {
    exists|k: int|
        0 <= k < origins.len() && (#[trigger] origins[k]).kind@ == "git"@ && match origins[k].dir {
            Some(d) => d@ == dir,
            None => false,
        }
}

/// A directory that may be checked for updates: one that a git origin of
/// the MCP servers or skills (`origins`) names. Any other directory is
/// refused with `<dir> is not a known extension repository`.
pub fn known_git_dir(origins: &Vec<Origin>, dir: &str) -> (r: Result<String, String>)
    ensures
        match r {
            Ok(d) => known_git(origins@, dir@) && d@ == dir@,
            Err(m) => !known_git(origins@, dir@) && m@ == dir@ + " is not a known extension repository"@,
        },
{
    let mut k: usize = 0;
    while k < origins.len()
        invariant
            k <= origins.len(),
            forall|j: int|
                0 <= j < k ==> !((#[trigger] origins@[j]).kind@ == "git"@ && match origins@[j].dir {
                    Some(d) => d@ == dir@,
                    None => false,
                }),
        decreases origins.len() - k,
    {
        let o = &origins[k];
        if str_eq(o.kind.as_str(), "git") {
            match &o.dir {
                Some(d) => if str_eq(d.as_str(), dir) {
                    return Ok(d.clone());
                },
                None => {},
            }
        }
        k += 1;
    }
    let mut m = chars_of(dir);
    extend_str(&mut m, " is not a known extension repository");
    Err(string_of(&m))
}

/// A `400` carrying the (already sanitised) message of a failed extension
/// operation.
pub fn bad_request(message: &str) -> (e: ApiError)
    ensures
        e.status == BAD_REQUEST,
        e.message@ == message@,
{
    ApiError::new(BAD_REQUEST, message)
}


/// The title an MCP server is listed under: its display name, or its id
/// when the display name is blank.
pub fn mcp_title(display_name: &str, id: &str) -> (r: String)
    ensures
        r@ == (if crate::text::trim_seq(display_name@).len() == 0 {
            id@
        } else {
            display_name@
        }),
{
    if crate::text::trim_chars(&chars_of(display_name)).len() == 0 {
        id.to_owned()
    } else {
        display_name.to_owned()
    }
}

/// How an MCP server's tool listing is shown: `unknown` before it was
/// listed, `ok`, or `failed` with the error.
pub fn mcp_status(listing: Option<Result<(), String>>) -> (r: (&'static str, Option<String>))
    ensures
        match listing {
            None => r.0@ == "unknown"@ && r.1 is None,
            Some(Ok(_)) => r.0@ == "ok"@ && r.1 is None,
            Some(Err(e)) => r.0@ == "failed"@ && r.1 == Some(e),
        },
{
    match listing {
        None => ("unknown", None),
        Some(Ok(_)) => ("ok", None),
        Some(Err(e)) => ("failed", Some(e)),
    }
}

/// Where a skill comes from, as the extensions page shows it.
pub enum SkillOrigin {
    /// Installed by a package.
    Package,
    /// Found on disk at this path: its origin is detected there.
    Detect(String),
    /// Built in.
    Builtin,
}

/// A skill installed by a package shows as such; one with a path gets its
/// origin detected there; the rest are built in.
pub fn skill_origin(package: Option<&str>, path: Option<&str>) -> (r: SkillOrigin)
    ensures
        package is Some ==> r is Package,
        package is None && path is Some ==> (r matches SkillOrigin::Detect(p) && p@ == path.unwrap()@),
        package is None && path is None ==> r is Builtin,
{
    match package {
        Some(_) => SkillOrigin::Package,
        None => match path {
            Some(p) => SkillOrigin::Detect(p.to_owned()),
            None => SkillOrigin::Builtin,
        },
    }
}

} // verus!
