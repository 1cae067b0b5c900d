//! Where a turn works and what its sandbox lets it touch. A session owned by
//! a member works in `<home>/workspace` under the member policy: writes only
//! to the workspace, `/tmp`, `/dev/null`, the script cache, the runtime
//! directory and the member's artifacts; reads only the system directories,
//! the script directories, the daemon binary and the member's documents,
//! pictures and personas.
use crate::accounts::Account;
use crate::extensions::{strip_prefix, strip_prefix_seq};
use crate::path::{is_rooted, join, join_seq, path_starts_with, path_starts_with_seq};
use crate::text::{chars_of, has_prefix, slice_chars, starts_with, string_of, string_views, trim_chars, trim_seq};
use vstd::prelude::*;

verus! {

/// The system directories every sandbox may read and execute.
pub const SYSTEM_READ_ONLY: [&'static str; 12] = [
    "/usr",
    "/bin",
    "/sbin",
    "/lib",
    "/lib64",
    "/etc",
    "/proc",
    "/sys",
    "/dev",
    "/run",
    "/opt",
    "/var",
];

/// A sandbox policy as the tool runner applies it.
pub struct SandboxPolicy {
    pub root: String,
    pub read_only: Vec<String>,
    pub read_write: Vec<String>,
    pub home: Option<String>,
    pub env: Vec<(String, String)>,
    pub path_prepend: Vec<String>,
    pub writable_summary: Vec<String>,
    pub readable_summary: Vec<String>,
}

/// The working directory of a turn and its sandbox, if any.
pub struct TurnScope {
    pub workspace: String,
    pub policy: Option<SandboxPolicy>,
}

/// The system directories.
pub open spec fn system_dirs() -> Seq<Seq<char>> {
    Seq::new(12, |k: int| SYSTEM_READ_ONLY[k]@)
}

/// The read-only directories both policies share: the system directories,
/// the installed and the built-in script directories, and the daemon's own
/// binary when it is known.
pub open spec fn system_read_only_spec(
    scripts_dir: Seq<char>,
    system_scripts_dir: Seq<char>,
    executable: Option<Seq<char>>,
) -> Seq<Seq<char>> {
    let base = system_dirs().push(scripts_dir).push(system_scripts_dir);
    match executable {
        Some(e) => base.push(e),
        None => base,
    }
}

fn push_str(v: &mut Vec<String>, s: &str)
    ensures
        string_views(final(v)@) == string_views(old(v)@).push(s@),
{
    let ghost before = string_views(v@);
    v.push(s.to_owned());
    assert(string_views(v@) =~= before.push(s@));
}

/// The read-only directories both sandbox policies share.
pub fn system_read_only(scripts_dir: &str, system_scripts_dir: &str, executable: Option<&str>) -> (r: Vec<String>)
    ensures
        string_views(r@) == system_read_only_spec(
            scripts_dir@,
            system_scripts_dir@,
            match executable {
                Some(e) => Some(e@),
                None => None,
            },
        ),
{
    let mut out: Vec<String> = Vec::new();
    let mut k: usize = 0;
    while k < 12
        invariant
            k <= 12,
            string_views(out@) == system_dirs().take(k as int),
        decreases 12 - k,
    {
        push_str(&mut out, SYSTEM_READ_ONLY[k]);
        assert(system_dirs().take(k + 1) =~= system_dirs().take(k as int).push(SYSTEM_READ_ONLY[k as int]@));
        k += 1;
    }
    assert(system_dirs().take(12) =~= system_dirs());
    push_str(&mut out, scripts_dir);
    push_str(&mut out, system_scripts_dir);
    match executable {
        Some(e) => push_str(&mut out, e),
        None => {},
    }
    out
}

/// The writable directories both policies share: the sandbox root, `/tmp`,
/// `/dev/null`, the script cache, and the daemon's runtime directory (which
/// holds its IPC socket) when it exists.
pub open spec fn base_read_write_spec(root: Seq<char>, cache_dir: Seq<char>, runtime_dir: Option<Seq<char>>) -> Seq<Seq<char>> {
    let base = seq![root, "/tmp"@, "/dev/null"@, cache_dir];
    match runtime_dir {
        Some(r) => base.push(r),
        None => base,
    }
}

/// The writable directories both policies share (`runtime_dir` only when
/// it exists).
pub fn base_read_write(root: &str, cache_dir: &str, runtime_dir: Option<&str>) -> (r: Vec<String>)
    ensures
        string_views(r@) == base_read_write_spec(
            root@,
            cache_dir@,
            match runtime_dir {
                Some(d) => Some(d@),
                None => None,
            },
        ),
{
    let mut out: Vec<String> = Vec::new();
    push_str(&mut out, root);
    push_str(&mut out, "/tmp");
    push_str(&mut out, "/dev/null");
    push_str(&mut out, cache_dir);
    match runtime_dir {
        Some(d) => push_str(&mut out, d),
        None => {},
    }
    out
}

/// Whether a session's owner is a member: an owner key is recorded, its
/// account exists, and the account is not an admin.
pub open spec fn is_member_session(owner: Option<Seq<char>>, account: Option<Account>) -> bool {
    owner is Some && owner.unwrap().len() > 0 && account is Some && !account.unwrap().is_admin
}

fn joined(base: &str, rel: &str) -> (r: String)
    ensures
        r@ == join_seq(base@, rel@),
{
    string_of(&crate::path::join(&chars_of(base), &chars_of(rel)))
}

/// The scope of a member's session before the paths that do not exist are
/// dropped (see [`retain_existing`]): the workspace `<home>/workspace` as
/// sandbox root and home, the shared read-only directories (`system`) plus
/// the member's documents, pictures and personas, and the shared writable
/// directories of the workspace plus the member's artifacts. Sessions that
/// no member owns get no member scope.
pub fn member_scope(
    owner: Option<&str>,
    account: Option<&Account>,
    home: &str,
    system: &Vec<String>,
    cache_dir: &str,
    runtime_dir: Option<&str>,
) -> (r: Option<TurnScope>)
    ensures
        r is Some <==> is_member_session(
            match owner {
                Some(o) => Some(o@),
                None => None,
            },
            match account {
                Some(a) => Some(*a),
                None => None,
            },
        ),
        r is Some ==> ({
            let s = r.unwrap();
            let ws = join_seq(home@, "workspace"@);
            &&& s.workspace@ == ws
            &&& s.policy is Some
            &&& s.policy.unwrap().root@ == ws
            &&& s.policy.unwrap().home is Some
            &&& s.policy.unwrap().home.unwrap()@ == ws
            &&& string_views(s.policy.unwrap().read_only@) == string_views(system@).push(
                join_seq(home@, "documents"@),
            ).push(join_seq(home@, "pictures"@)).push(join_seq(home@, "personas"@))
            &&& string_views(s.policy.unwrap().read_write@) == base_read_write_spec(
                ws,
                cache_dir@,
                match runtime_dir {
                    Some(d) => Some(d@),
                    None => None,
                },
            ).push(join_seq(home@, "artifacts"@))
            &&& s.policy.unwrap().env@.len() == 0
            &&& s.policy.unwrap().path_prepend@.len() == 0
            &&& string_views(s.policy.unwrap().writable_summary@) == seq!["root"@, "/tmp"@]
            &&& string_views(s.policy.unwrap().readable_summary@) == seq!["root"@, "/tmp"@, "system dirs"@]
        }),
{
    let o = match owner {
        Some(o) => o,
        None => return None,
    };
    if o.is_empty() {
        return None;
    }
    let a = match account {
        Some(a) => a,
        None => return None,
    };
    if a.is_admin {
        return None;
    }
    let workspace = joined(home, "workspace");
    let artifacts = joined(home, "artifacts");
    let mut read_only: Vec<String> = Vec::new();
    let mut k: usize = 0;
    while k < system.len()
        invariant
            k <= system.len(),
            string_views(read_only@) == string_views(system@).take(k as int),
        decreases system.len() - k,
    {
        push_str(&mut read_only, system[k].as_str());
        assert(string_views(system@).take(k + 1) =~= string_views(system@).take(k as int).push(system@[k as int]@));
        k += 1;
    }
    assert(string_views(system@).take(system.len() as int) =~= string_views(system@));
    let documents = joined(home, "documents");
    let pictures = joined(home, "pictures");
    let personas = joined(home, "personas");
    push_str(&mut read_only, documents.as_str());
    push_str(&mut read_only, pictures.as_str());
    push_str(&mut read_only, personas.as_str());
    let mut read_write = base_read_write(workspace.as_str(), cache_dir, runtime_dir);
    push_str(&mut read_write, artifacts.as_str());
    let mut writable_summary: Vec<String> = Vec::new();
    push_str(&mut writable_summary, "root");
    push_str(&mut writable_summary, "/tmp");
    let mut readable_summary: Vec<String> = Vec::new();
    push_str(&mut readable_summary, "root");
    push_str(&mut readable_summary, "/tmp");
    push_str(&mut readable_summary, "system dirs");
    assert(string_views(writable_summary@) =~= seq!["root"@, "/tmp"@]);
    assert(string_views(readable_summary@) =~= seq!["root"@, "/tmp"@, "system dirs"@]);
    let policy = SandboxPolicy {
        root: workspace.clone(),
        read_only,
        read_write,
        home: Some(workspace.clone()),
        env: Vec::new(),
        path_prepend: Vec::new(),
        writable_summary,
        readable_summary,
    };
    Some(TurnScope { workspace, policy: Some(policy) })
}

/// The paths that exist (`exists` tells, in order), in their order: a
/// sandbox refuses to start on a grant it cannot open.
pub open spec fn existing_paths(paths: Seq<Seq<char>>, exists: Seq<bool>) -> Seq<Seq<char>>
    decreases paths.len(),
{
    if paths.len() == 0 {
        seq![]
    } else {
        let before = existing_paths(paths.drop_last(), exists.take(paths.len() - 1));
        if exists[paths.len() - 1] {
            before.push(paths.last())
        } else {
            before
        }
    }
}

/// Keeps the paths that exist, in order.
pub fn retain_existing(paths: &Vec<String>, exists: &Vec<bool>) -> (r: Vec<String>)
    requires
        exists.len() == paths.len(),
    ensures
        string_views(r@) == existing_paths(string_views(paths@), exists@),
{
    let mut out: Vec<String> = Vec::new();
    let mut k: usize = 0;
    while k < paths.len()
        invariant
            k <= paths.len() == exists.len(),
            string_views(out@) == existing_paths(string_views(paths@).take(k as int), exists@.take(k as int)),
        decreases paths.len() - k,
    {
        let ghost t = string_views(paths@).take(k + 1);
        assert(t.drop_last() =~= string_views(paths@).take(k as int));
        assert(exists@.take(k + 1).take(k as int) =~= exists@.take(k as int));
        assert(t.last() == paths@[k as int]@);
        if exists[k] {
            push_str(&mut out, paths[k].as_str());
        }
        k += 1;
    }
    assert(string_views(paths@).take(paths.len() as int) =~= string_views(paths@));
    assert(exists@.take(paths.len() as int) =~= exists@);
    out
}


/// A `tools.sandbox` entry as a path: trimmed; `~/rest` under the real home
/// (nothing without one); an absolute path as it is; anything else nothing.
pub open spec fn expanded_entry(value: Seq<char>, home: Option<Seq<char>>) -> Option<Seq<char>> {
    let v = trim_seq(value);
    if has_prefix(v, "~/"@) {
        match home {
            Some(h) => Some(join_seq(h, v.skip(2))),
            None => None,
        }
    } else if is_rooted(v) {
        Some(v)
    } else {
        None
    }
}

/// Expands one `tools.sandbox` entry.
pub fn expand_sandbox_entry(value: &str, home: Option<&str>) -> (r: Option<String>)
    ensures
        match r {
            Some(p) => expanded_entry(value@, opt_str(home)) == Some(p@),
            None => expanded_entry(value@, opt_str(home)) is None,
        },
{
    let v = trim_chars(&chars_of(value));
    let tilde = chars_of("~/");
    proof {
        reveal_strlit("~/");
    }
    assert(tilde@.len() == 2);
    if starts_with(&v, &tilde) {
        return match home {
            Some(h) => {
                let rest = slice_chars(&v, 2, v.len());
                assert(rest@ =~= v@.skip(2));
                Some(string_of(&join(&chars_of(h), &rest)))
            },
            None => None,
        };
    }
    if v.len() > 0 && v[0] == '/' {
        Some(string_of(&v))
    } else {
        None
    }
}

/// The optional view of an optional string slice.
pub open spec fn opt_str(o: Option<&str>) -> Option<Seq<char>> {
    match o {
        Some(s) => Some(s@),
        None => None,
    }
}

/// How a granted path is shown: under the home as `~/rest`, else as it is.
pub open spec fn abbreviated(path: Seq<char>, home: Option<Seq<char>>) -> Seq<char> {
    match home {
        Some(h) => match strip_prefix_seq(path, h) {
            Some(rest) => "~/"@ + rest,
            None => path,
        },
        None => path,
    }
}

/// Shows a granted path relative to the home when it lies under it.
pub fn abbreviate_home(path: &str, home: Option<&str>) -> (r: String)
    ensures
        r@ == abbreviated(path@, opt_str(home)),
{
    match home {
        Some(h) => match strip_prefix(&chars_of(path), &chars_of(h)) {
            Some(rest) => {
                let mut v = chars_of("~/");
                crate::text::extend_chars(&mut v, &rest);
                string_of(&v)
            },
            None => path.to_owned(),
        },
        None => path.to_owned(),
    }
}

/// Whether a path lies under one of the granted directories.
pub open spec fn granted(path: Seq<char>, allowed: Seq<Seq<char>>) -> bool {
    exists|k: int| 0 <= k < allowed.len() && path_starts_with_seq(path, #[trigger] allowed[k])
}

/// Whether a path lies under a granted directory.
pub fn is_granted(path: &str, allowed: &Vec<String>) -> (r: bool)
    ensures
        r == granted(path@, string_views(allowed@)),
{
    let p = chars_of(path);
    let ghost av = string_views(allowed@);
    let mut k: usize = 0;
    while k < allowed.len()
        invariant
            k <= allowed.len(),
            p@ == path@,
            av == string_views(allowed@),
            av.len() == allowed.len(),
            forall|j: int| 0 <= j < k ==> !path_starts_with_seq(path@, #[trigger] av[j]),
        decreases allowed.len() - k,
    {
        assert(av[k as int] == allowed@[k as int]@);
        if path_starts_with(&p, &chars_of(allowed[k].as_str())) {
            return true;
        }
        k += 1;
    }
    false
}

/// The toolchain directories in the real home and the variable each is
/// passed in, when granted.
pub const TOOLCHAIN_ENV: [(&'static str, &'static str); 4] = [
    (".cargo", "CARGO_HOME"),
    (".rustup", "RUSTUP_HOME"),
    (".npm", "npm_config_cache"),
    (".gitconfig", "GIT_CONFIG_GLOBAL"),
];

/// The user bin directories put first on `PATH`, when granted.
pub const PATH_PREPEND: [&'static str; 2] = [".cargo/bin", ".local/bin"];

/// The toolchain variables a sandbox passes on: for each toolchain directory
/// that exists in the real home (`exists`, in order) and lies under a grant,
/// its variable pointing there.
pub open spec fn toolchain_env(home: Seq<char>, exists: Seq<bool>, allowed: Seq<Seq<char>>, k: int) -> Seq<(Seq<char>, Seq<char>)>
    decreases k,
{
    if k <= 0 {
        seq![]
    } else {
        let before = toolchain_env(home, exists, allowed, k - 1);
        let path = join_seq(home, TOOLCHAIN_ENV[k - 1].0@);
        if exists[k - 1] && granted(path, allowed) {
            before.push((TOOLCHAIN_ENV[k - 1].1@, path))
        } else {
            before
        }
    }
}

/// The bin directories put first on `PATH`: those that are directories in
/// the real home (`dirs`, in order) and lie under a grant.
pub open spec fn path_prepend(home: Seq<char>, dirs: Seq<bool>, allowed: Seq<Seq<char>>, k: int) -> Seq<Seq<char>>
    decreases k,
{
    if k <= 0 {
        seq![]
    } else {
        let before = path_prepend(home, dirs, allowed, k - 1);
        let path = join_seq(home, PATH_PREPEND[k - 1]@);
        if dirs[k - 1] && granted(path, allowed) {
            before.push(path)
        } else {
            before
        }
    }
}

/// The readable or writable summary of an admin sandbox: the fixed items,
/// then each granted extra entry as shown.
pub open spec fn summary_of(fixed: Seq<Seq<char>>, extra: Seq<Seq<char>>, home: Option<Seq<char>>) -> Seq<Seq<char>> {
    fixed + Seq::new(extra.len(), |k: int| abbreviated(extra[k], home))
}

fn summary(fixed: &Vec<String>, extra: &Vec<String>, home: Option<&str>) -> (r: Vec<String>)
    ensures
        string_views(r@) == summary_of(string_views(fixed@), string_views(extra@), opt_str(home)),
{
    let ghost want = summary_of(string_views(fixed@), string_views(extra@), opt_str(home));
    let mut out: Vec<String> = Vec::new();
    let mut k: usize = 0;
    while k < fixed.len()
        invariant
            k <= fixed.len(),
            want == summary_of(string_views(fixed@), string_views(extra@), opt_str(home)),
            string_views(out@) == want.take(k as int),
        decreases fixed.len() - k,
    {
        push_str(&mut out, fixed[k].as_str());
        assert(want[k as int] == fixed@[k as int]@);
        assert(want.take(k + 1) =~= want.take(k as int).push(want[k as int]));
        k += 1;
    }
    let mut e: usize = 0;
    while e < extra.len()
        invariant
            e <= extra.len(),
            want == summary_of(string_views(fixed@), string_views(extra@), opt_str(home)),
            want.len() == fixed.len() + extra.len(),
            string_views(out@) == want.take(fixed.len() + e),
        decreases extra.len() - e,
    {
        let a = abbreviate_home(extra[e].as_str(), home);
        push_str(&mut out, a.as_str());
        assert(want[fixed.len() + e] == abbreviated(extra@[e as int]@, opt_str(home)));
        assert(want.take(fixed.len() + e + 1) =~= want.take(fixed.len() + e).push(want[fixed.len() + e]));
        e += 1;
    }
    assert(want.take(want.len() as int) =~= want);
    out
}

/// The scope of an admin session bound to a sandbox root. `read_only` and
/// `read_write` are the grants that exist (the shared ones, the admin's
/// output directories and the `tools.sandbox` entries, see
/// [`retain_existing`]); `readable_extra` and `writable_extra` the expanded
/// `tools.sandbox` entries that exist, which the summaries list after their
/// fixed items; `toolchains` and `bin_dirs` whether each of
/// [`TOOLCHAIN_ENV`] exists and each of [`PATH_PREPEND`] is a directory in
/// the real home.
pub fn admin_scope(
    root: &str,
    home: Option<&str>,
    read_only: Vec<String>,
    read_write: Vec<String>,
    readable_extra: &Vec<String>,
    writable_extra: &Vec<String>,
    toolchains: &Vec<bool>,
    bin_dirs: &Vec<bool>,
) -> (r: TurnScope)
    requires
        toolchains.len() == 4,
        bin_dirs.len() == 2,
    ensures
        r.workspace@ == root@,
        r.policy is Some,
        r.policy.unwrap().root@ == root@,
        r.policy.unwrap().home is Some && r.policy.unwrap().home.unwrap()@ == root@,
        string_views(r.policy.unwrap().read_only@) == string_views(read_only@),
        string_views(r.policy.unwrap().read_write@) == string_views(read_write@),
        string_views(r.policy.unwrap().readable_summary@) == summary_of(
            seq!["root"@, "/tmp"@, "system dirs"@],
            string_views(readable_extra@),
            opt_str(home),
        ),
        string_views(r.policy.unwrap().writable_summary@) == summary_of(
            seq!["root"@, "/tmp"@],
            string_views(writable_extra@),
            opt_str(home),
        ),
        match home {
            Some(h) => crate::persona::pair_views(r.policy.unwrap().env@) == toolchain_env(
                h@,
                toolchains@,
                string_views(read_only@) + string_views(read_write@),
                4,
            ) && string_views(r.policy.unwrap().path_prepend@) == path_prepend(
                h@,
                bin_dirs@,
                string_views(read_only@) + string_views(read_write@),
                2,
            ),
            None => r.policy.unwrap().env@.len() == 0 && r.policy.unwrap().path_prepend@.len() == 0,
        },
{
    let mut fixed_read: Vec<String> = Vec::new();
    push_str(&mut fixed_read, "root");
    push_str(&mut fixed_read, "/tmp");
    push_str(&mut fixed_read, "system dirs");
    assert(string_views(fixed_read@) =~= seq!["root"@, "/tmp"@, "system dirs"@]);
    let mut fixed_write: Vec<String> = Vec::new();
    push_str(&mut fixed_write, "root");
    push_str(&mut fixed_write, "/tmp");
    assert(string_views(fixed_write@) =~= seq!["root"@, "/tmp"@]);
    let readable_summary = summary(&fixed_read, readable_extra, home);
    let writable_summary = summary(&fixed_write, writable_extra, home);
    let mut allowed: Vec<String> = Vec::new();
    let mut k: usize = 0;
    while k < read_only.len()
        invariant
            k <= read_only.len(),
            string_views(allowed@) == string_views(read_only@).take(k as int),
        decreases read_only.len() - k,
    {
        push_str(&mut allowed, read_only[k].as_str());
        assert(string_views(read_only@).take(k + 1) =~= string_views(read_only@).take(k as int).push(
            read_only@[k as int]@,
        ));
        k += 1;
    }
    assert(string_views(read_only@).take(read_only.len() as int) =~= string_views(read_only@));
    let mut k: usize = 0;
    while k < read_write.len()
        invariant
            k <= read_write.len(),
            string_views(allowed@) == string_views(read_only@) + string_views(read_write@).take(k as int),
        decreases read_write.len() - k,
    {
        push_str(&mut allowed, read_write[k].as_str());
        assert(string_views(read_write@).take(k + 1) =~= string_views(read_write@).take(k as int).push(
            read_write@[k as int]@,
        ));
        k += 1;
    }
    assert(string_views(read_write@).take(read_write.len() as int) =~= string_views(read_write@));
    let ghost av = string_views(allowed@);
    let mut env: Vec<(String, String)> = Vec::new();
    let mut prepend: Vec<String> = Vec::new();
    match home {
        Some(h) => {
            let mut t: usize = 0;
            while t < 4
                invariant
                    t <= 4,
                    toolchains.len() == 4,
                    av == string_views(allowed@),
                    crate::persona::pair_views(env@) == toolchain_env(h@, toolchains@, av, t as int),
                decreases 4 - t,
            {
                let path = string_of(&join(&chars_of(h), &chars_of(TOOLCHAIN_ENV[t].0)));
                if toolchains[t] && is_granted(path.as_str(), &allowed) {
                    let ghost before = crate::persona::pair_views(env@);
                    env.push((TOOLCHAIN_ENV[t].1.to_owned(), path));
                    assert(crate::persona::pair_views(env@) =~= before.push(
                        (TOOLCHAIN_ENV[t as int].1@, join_seq(h@, TOOLCHAIN_ENV[t as int].0@)),
                    ));
                }
                t += 1;
            }
            let mut b: usize = 0;
            while b < 2
                invariant
                    b <= 2,
                    bin_dirs.len() == 2,
                    av == string_views(allowed@),
                    string_views(prepend@) == path_prepend(h@, bin_dirs@, av, b as int),
                decreases 2 - b,
            {
                let path = string_of(&join(&chars_of(h), &chars_of(PATH_PREPEND[b])));
                if bin_dirs[b] && is_granted(path.as_str(), &allowed) {
                    push_str(&mut prepend, path.as_str());
                }
                b += 1;
            }
        },
        None => {},
    }
    let policy = SandboxPolicy {
        root: root.to_owned(),
        read_only,
        read_write,
        home: Some(root.to_owned()),
        env,
        path_prepend: prepend,
        writable_summary,
        readable_summary,
    };
    TurnScope { workspace: root.to_owned(), policy: Some(policy) }
}


fn append_all(out: &mut Vec<String>, more: &Vec<String>)
    ensures
        string_views(final(out)@) == string_views(old(out)@) + string_views(more@),
{
    let ghost start = string_views(out@);
    let mut k: usize = 0;
    while k < more.len()
        invariant
            k <= more.len(),
            string_views(out@) == start + string_views(more@).take(k as int),
        decreases more.len() - k,
    {
        push_str(out, more[k].as_str());
        assert(string_views(more@).take(k + 1) =~= string_views(more@).take(k as int).push(more@[k as int]@));
        k += 1;
    }
    assert(string_views(more@).take(more.len() as int) =~= string_views(more@));
}

/// The grants of an admin sandbox before the paths that do not exist are
/// dropped: the shared ones (`shared`: the system read-only directories, or
/// the shared writable ones), then the admin's own (`own`: none for
/// reading; the artifact library, documents and pictures for writing), then
/// the expanded `tools.sandbox` entries that exist (`extra`).
pub fn admin_grants(shared: &Vec<String>, own: &Vec<String>, extra: &Vec<String>) -> (r: Vec<String>)
    ensures
        string_views(r@) == string_views(shared@) + string_views(own@) + string_views(extra@),
{
    let mut out: Vec<String> = Vec::new();
    assert(string_views(out@) =~= Seq::<Seq<char>>::empty());
    append_all(&mut out, shared);
    assert(Seq::<Seq<char>>::empty() + string_views(shared@) =~= string_views(shared@));
    append_all(&mut out, own);
    append_all(&mut out, extra);
    out
}


/// Where a session's turn works when no member owns it.
pub enum ScopeChoice {
    /// The admin bound the session to this sandbox root (an existing
    /// directory): the admin policy applies.
    AdminSandbox(String),
    /// No sandbox: the workspace is this directory.
    Plain(String),
}

/// The workspace of an unsandboxed turn: the client's working directory
/// when it is a directory, else the user's home, else the daemon's working
/// directory, else `.`.
pub open spec fn plain_workspace(client_cwd: Option<Seq<char>>, home: Option<Seq<char>>, current: Option<Seq<char>>) -> Seq<char> {
    match client_cwd {
        Some(c) => c,
        None => match home {
            Some(h) => h,
            None => match current {
                Some(d) => d,
                None => "."@,
            },
        },
    }
}

/// The scope of a session no member owns: its bound sandbox root when it
/// has one that is a directory; otherwise a plain workspace (arguments are
/// given only when they are directories, the home and the daemon's working
/// directory when they are known).
pub fn session_scope(
    sandbox_root: Option<&str>,
    client_cwd: Option<&str>,
    home: Option<&str>,
    current: Option<&str>,
) -> (r: ScopeChoice)
    ensures
        match sandbox_root {
            Some(root) => r matches ScopeChoice::AdminSandbox(p) && p@ == root@,
            None => r matches ScopeChoice::Plain(w) && w@ == plain_workspace(
                opt_str(client_cwd),
                opt_str(home),
                opt_str(current),
            ),
        },
{
    match sandbox_root {
        Some(root) => ScopeChoice::AdminSandbox(root.to_owned()),
        None => {
            let w = match client_cwd {
                Some(c) => c.to_owned(),
                None => match home {
                    Some(h) => h.to_owned(),
                    None => match current {
                        Some(d) => d.to_owned(),
                        None => ".".to_owned(),
                    },
                },
            };
            ScopeChoice::Plain(w)
        },
    }
}

} // verus!
