//! Unix paths as `std::path::Path` reads them: a path is a sequence of
//! components (root, `.`, `..`, names). The asset and sandbox rules compare
//! paths component by component, so the model is the component list, and the
//! functions here produce and compare those lists.
use crate::text::{chars_eq, eq_str, extend_chars, find_char, slice_chars, starts_with, has_prefix};
use vstd::prelude::*;

verus! {

/// One path component, as `std::path::Component` names them.
pub enum PathComp {
    Root,
    Cur,
    Parent,
    Normal(Vec<char>),
}

/// The mathematical view of a component.
pub enum Comp {
    Root,
    Cur,
    Parent,
    Normal(Seq<char>),
}

impl View for PathComp {
    type V = Comp;

    open spec fn view(&self) -> Comp {
        match self {
            PathComp::Root => Comp::Root,
            PathComp::Cur => Comp::Cur,
            PathComp::Parent => Comp::Parent,
            PathComp::Normal(n) => Comp::Normal(n@),
        }
    }
}

pub open spec fn comps_view(v: Seq<PathComp>) -> Seq<Comp> {
    v.map_values(|c: PathComp| c@)
}

/// The pieces of `s` between `/` separators, empty pieces included.
pub open spec fn split_slash(s: Seq<char>) -> Seq<Seq<char>>
    decreases s.len(),
{
    if s.len() == 0 {
        seq![Seq::empty()]
    } else {
        let p = split_slash(s.drop_last());
        if s.last() == '/' {
            p.push(Seq::empty())
        } else {
            p.update(p.len() - 1, p.last().push(s.last()))
        }
    }
}

proof fn lemma_split_slash_nonempty(s: Seq<char>)
    ensures
        split_slash(s).len() >= 1,
    decreases s.len(),
{
    if s.len() > 0 {
        lemma_split_slash_nonempty(s.drop_last());
    }
}

pub open spec fn dot() -> Seq<char> {
    seq!['.']
}

pub open spec fn dotdot() -> Seq<char> {
    seq!['.', '.']
}

/// The component a piece stands for: empty pieces and `.` are dropped,
/// except that a relative path that begins with `.` keeps it as `Cur`.
pub open spec fn piece_comp(piece: Seq<char>, leading_relative: bool) -> Option<Comp> {
    if piece.len() == 0 {
        None
    } else if piece == dot() {
        if leading_relative {
            Some(Comp::Cur)
        } else {
            None
        }
    } else if piece == dotdot() {
        Some(Comp::Parent)
    } else {
        Some(Comp::Normal(piece))
    }
}

pub open spec fn opt_seq(o: Option<Comp>) -> Seq<Comp> {
    match o {
        Some(c) => seq![c],
        None => Seq::empty(),
    }
}

pub open spec fn comps_of_pieces(pieces: Seq<Seq<char>>, rooted: bool) -> Seq<Comp>
    decreases pieces.len(),
{
    if pieces.len() == 0 {
        Seq::empty()
    } else {
        comps_of_pieces(pieces.drop_last(), rooted) + opt_seq(
            piece_comp(pieces.last(), !rooted && pieces.len() == 1),
        )
    }
}

pub open spec fn is_rooted(s: Seq<char>) -> bool {
    s.len() > 0 && s[0] == '/'
}

/// `Path::components` of the path spelled by `s`.
pub open spec fn components_seq(s: Seq<char>) -> Seq<Comp> {
    (if is_rooted(s) {
        seq![Comp::Root]
    } else {
        Seq::empty()
    }) + comps_of_pieces(split_slash(s), is_rooted(s))
}

/// The pieces of a path, computed left to right.
fn split_pieces(v: &[char]) -> (out: Vec<Vec<char>>)
    ensures
        out@.map_values(|p: Vec<char>| p@) == split_slash(v@),
{
    let mut out: Vec<Vec<char>> = Vec::new();
    out.push(Vec::new());
    let mut i: usize = 0;
    assert(out@.map_values(|p: Vec<char>| p@) =~= split_slash(v@.take(0)));
    while i < v.len()
        invariant
            i <= v.len(),
            out.len() >= 1,
            out@.map_values(|p: Vec<char>| p@) == split_slash(v@.take(i as int)),
        decreases v.len() - i,
    {
        let c = v[i];
        let ghost before = out@.map_values(|p: Vec<char>| p@);
        assert(v@.take(i + 1).drop_last() =~= v@.take(i as int));
        if c == '/' {
            out.push(Vec::new());
            assert(out@.map_values(|p: Vec<char>| p@) =~= before.push(Seq::empty()));
        } else {
            let last = out.len() - 1;
            let mut piece = out.pop().unwrap();
            piece.push(c);
            out.push(piece);
            assert(out@.map_values(|p: Vec<char>| p@) =~= before.update(
                before.len() - 1,
                before.last().push(c),
            ));
        }
        i += 1;
    }
    assert(v@.take(v.len() as int) =~= v@);
    out
}

fn piece_to_comp(piece: &Vec<char>, leading_relative: bool) -> (r: Option<PathComp>)
    ensures
        match r {
            Some(c) => piece_comp(piece@, leading_relative) == Some(c@),
            None => piece_comp(piece@, leading_relative) is None,
        },
{
    if piece.len() == 0 {
        None
    } else if piece.len() == 1 && piece[0] == '.' {
        assert(piece@ =~= dot());
        if leading_relative {
            Some(PathComp::Cur)
        } else {
            None
        }
    } else if piece.len() == 2 && piece[0] == '.' && piece[1] == '.' {
        assert(piece@ =~= dotdot());
        Some(PathComp::Parent)
    } else {
        assert(piece@ != dot());
        assert(piece@ != dotdot());
        let mut copy: Vec<char> = Vec::new();
        extend_chars(&mut copy, piece.as_slice());
        Some(PathComp::Normal(copy))
    }
}

/// `Path::new(s).components()`.
pub fn components(v: &[char]) -> (out: Vec<PathComp>)
    ensures
        comps_view(out@) == components_seq(v@),
{
    let rooted = v.len() > 0 && v[0] == '/';
    let pieces = split_pieces(v);
    let ghost ps = pieces@.map_values(|p: Vec<char>| p@);
    let mut out: Vec<PathComp> = Vec::new();
    if rooted {
        out.push(PathComp::Root);
    }
    let ghost head: Seq<Comp> = if rooted {
        seq![Comp::Root]
    } else {
        Seq::empty()
    };
    assert(comps_view(out@) =~= head);
    let mut k: usize = 0;
    while k < pieces.len()
        invariant
            k <= pieces.len(),
            ps == pieces@.map_values(|p: Vec<char>| p@),
            ps == split_slash(v@),
            rooted == is_rooted(v@),
            head == (if rooted {
                seq![Comp::Root]
            } else {
                Seq::<Comp>::empty()
            }),
            comps_view(out@) == head + comps_of_pieces(ps.take(k as int), rooted),
        decreases pieces.len() - k,
    {
        let ghost before = out@;
        assert(ps.take(k + 1).drop_last() =~= ps.take(k as int));
        assert(ps.take(k + 1).last() == ps[k as int]);
        assert(ps[k as int] == pieces@[k as int]@);
        let c = piece_to_comp(&pieces[k], !rooted && k == 0);
        match c {
            Some(c) => {
                out.push(c);
                assert(comps_view(out@) =~= comps_view(before) + seq![c@]);
            },
            None => {},
        }
        proof {
            assert(comps_of_pieces(ps.take(k + 1), rooted) == comps_of_pieces(
                ps.take(k as int),
                rooted,
            ) + opt_seq(piece_comp(ps[k as int], !rooted && k + 1 == 1)));
        }
        k += 1;
    }
    assert(ps.take(pieces.len() as int) =~= ps);
    out
}

/// The first component that is not `.` (the search `persona-avatars` runs).
pub open spec fn first_non_cur(cs: Seq<Comp>) -> Option<Comp>
    decreases cs.len(),
{
    if cs.len() == 0 {
        None
    } else if cs[0] is Cur {
        first_non_cur(cs.drop_first())
    } else {
        Some(cs[0])
    }
}

/// The components after the leading run of `.`.
pub open spec fn skip_cur(cs: Seq<Comp>) -> Seq<Comp>
    decreases cs.len(),
{
    if cs.len() > 0 && cs[0] is Cur {
        skip_cur(cs.drop_first())
    } else {
        cs
    }
}

pub proof fn lemma_first_non_cur_skip(cs: Seq<Comp>)
    ensures
        first_non_cur(cs) == (if skip_cur(cs).len() == 0 {
            None
        } else {
            Some(skip_cur(cs)[0])
        }),
    decreases cs.len(),
{
    if cs.len() > 0 && cs[0] is Cur {
        lemma_first_non_cur_skip(cs.drop_first());
    }
}

/// Index of the first component that is not `.`.
pub fn skip_cur_index(cs: &[PathComp]) -> (i: usize)
    ensures
        i <= cs.len(),
        comps_view(cs@).subrange(i as int, cs.len() as int) == skip_cur(comps_view(cs@)),
{
    let mut i: usize = 0;
    proof {
        assert(comps_view(cs@).subrange(0, cs.len() as int) =~= comps_view(cs@));
    }
    while i < cs.len() && matches!(cs[i], PathComp::Cur)
        invariant
            i <= cs.len(),
            skip_cur(comps_view(cs@)) == skip_cur(
                comps_view(cs@).subrange(i as int, cs.len() as int),
            ),
        decreases cs.len() - i,
    {
        let ghost rest = comps_view(cs@).subrange(i as int, cs.len() as int);
        assert(rest[0] == cs@[i as int]@);
        assert(rest.drop_first() =~= comps_view(cs@).subrange(i + 1, cs.len() as int));
        i += 1;
    }
    proof {
        let rest = comps_view(cs@).subrange(i as int, cs.len() as int);
        if rest.len() > 0 {
            assert(rest[0] == cs@[i as int]@);
        }
    }
    i
}

/// Whether the component is `Normal(name)`.
pub fn comp_is_name(c: &PathComp, name: &str) -> (r: bool)
    ensures
        r == (c@ == Comp::Normal(name@)),
{
    match c {
        PathComp::Normal(n) => eq_str(n.as_slice(), name),
        _ => false,
    }
}

/// `Path::file_name`: the last component when it is a name.
pub open spec fn file_name_seq(s: Seq<char>) -> Option<Seq<char>> {
    let cs = components_seq(s);
    if cs.len() > 0 && cs.last() is Normal {
        Some(cs.last()->Normal_0)
    } else {
        None
    }
}

pub fn file_name(v: &[char]) -> (r: Option<Vec<char>>)
    ensures
        match r {
            Some(n) => file_name_seq(v@) == Some(n@),
            None => file_name_seq(v@) is None,
        },
{
    let cs = components(v);
    if cs.len() == 0 {
        return None;
    }
    let last = cs.len() - 1;
    assert(comps_view(cs@).last() == cs@[last as int]@);
    match &cs[last] {
        PathComp::Normal(n) => {
            let mut out: Vec<char> = Vec::new();
            extend_chars(&mut out, n.as_slice());
            Some(out)
        },
        _ => None,
    }
}

/// The last position of `c` in `s`, if any.
pub open spec fn last_index_of(s: Seq<char>, c: char) -> Option<int>
    decreases s.len(),
{
    if s.len() == 0 {
        None
    } else if s.last() == c {
        Some(s.len() - 1)
    } else {
        last_index_of(s.drop_last(), c)
    }
}

pub proof fn lemma_last_index_of(s: Seq<char>, c: char)
    ensures
        match last_index_of(s, c) {
            Some(i) => 0 <= i < s.len() && s[i] == c && forall|j: int|
                i < j < s.len() ==> s[j] != c,
            None => forall|j: int| 0 <= j < s.len() ==> s[j] != c,
        },
    decreases s.len(),
{
    if s.len() > 0 && s.last() != c {
        let t = s.drop_last();
        lemma_last_index_of(t, c);
        assert forall|j: int| 0 <= j < t.len() implies t[j] == s[j] by {}
    }
}

pub fn rfind_char(v: &[char], c: char) -> (r: Option<usize>)
    ensures
        match r {
            Some(i) => last_index_of(v@, c) == Some(i as int),
            None => last_index_of(v@, c) is None,
        },
{
    let mut j: usize = v.len();
    assert(v@.take(j as int) =~= v@);
    while j > 0
        invariant
            j <= v.len(),
            last_index_of(v@, c) == last_index_of(v@.take(j as int), c),
        decreases j,
    {
        assert(v@.take(j as int).drop_last() =~= v@.take(j - 1));
        if v[j - 1] == c {
            return Some(j - 1);
        }
        j -= 1;
    }
    None
}

/// The extension of a file name, as `Path::extension` splits it: the text
/// after the last `.`, unless the name is `..` or its only dot is its first
/// character.
pub open spec fn name_extension(name: Seq<char>) -> Option<Seq<char>> {
    if name == dotdot() {
        None
    } else {
        match last_index_of(name, '.') {
            None => None,
            Some(i) => if i == 0 {
                None
            } else {
                Some(name.subrange(i + 1, name.len() as int))
            },
        }
    }
}

/// `Path::extension` of the path spelled by `s`.
pub open spec fn extension_seq(s: Seq<char>) -> Option<Seq<char>> {
    match file_name_seq(s) {
        Some(name) => name_extension(name),
        None => None,
    }
}

pub fn extension(v: &[char]) -> (r: Option<Vec<char>>)
    ensures
        match r {
            Some(e) => extension_seq(v@) == Some(e@),
            None => extension_seq(v@) is None,
        },
{
    let name = match file_name(v) {
        Some(n) => n,
        None => return None,
    };
    if name.len() == 2 && name[0] == '.' && name[1] == '.' {
        assert(name@ =~= dotdot());
        return None;
    }
    assert(name@ != dotdot());
    match rfind_char(&name, '.') {
        None => None,
        Some(i) => {
            if i == 0 {
                None
            } else {
                proof {
                    lemma_last_index_of(name@, '.');
                }
                Some(slice_chars(&name, i + 1, name.len()))
            }
        },
    }
}

/// `Path::starts_with`: `base`'s components are a prefix of `p`'s.
pub open spec fn path_starts_with_seq(p: Seq<char>, base: Seq<char>) -> bool {
    let a = components_seq(p);
    let b = components_seq(base);
    b.len() <= a.len() && a.take(b.len() as int) == b
}

pub fn comp_eq(a: &PathComp, b: &PathComp) -> (r: bool)
    ensures
        r == (a@ == b@),
{
    match (a, b) {
        (PathComp::Root, PathComp::Root) => true,
        (PathComp::Cur, PathComp::Cur) => true,
        (PathComp::Parent, PathComp::Parent) => true,
        (PathComp::Normal(x), PathComp::Normal(y)) => chars_eq(x.as_slice(), y.as_slice()),
        _ => false,
    }
}

/// Whether `b` is a prefix of `a`, component by component.
pub fn comps_prefix(a: &[PathComp], b: &[PathComp]) -> (r: bool)
    ensures
        r == (b.len() <= a.len() && comps_view(a@).take(b.len() as int) == comps_view(b@)),
{
    if b.len() > a.len() {
        return false;
    }
    let mut i: usize = 0;
    while i < b.len()
        invariant
            i <= b.len() <= a.len(),
            forall|k: int| 0 <= k < i ==> a@[k]@ == b@[k]@,
        decreases b.len() - i,
    {
        if !comp_eq(&a[i], &b[i]) {
            assert(comps_view(a@).take(b.len() as int)[i as int] != comps_view(b@)[i as int]);
            return false;
        }
        i += 1;
    }
    assert(comps_view(a@).take(b.len() as int) =~= comps_view(b@));
    true
}

pub fn path_starts_with(p: &[char], base: &[char]) -> (r: bool)
    ensures
        r == path_starts_with_seq(p@, base@),
{
    let a = components(p);
    let b = components(base);
    comps_prefix(&a, &b)
}

/// How a list of components is written back as text: the root as `/`, then
/// the remaining components joined by `/`.
pub open spec fn comp_text(c: Comp) -> Seq<char> {
    match c {
        Comp::Root => seq!['/'],
        Comp::Cur => dot(),
        Comp::Parent => dotdot(),
        Comp::Normal(n) => n,
    }
}

pub open spec fn render_comps(cs: Seq<Comp>) -> Seq<char>
    decreases cs.len(),
{
    if cs.len() == 0 {
        Seq::empty()
    } else {
        let prev = render_comps(cs.drop_last());
        let sep: Seq<char> = if cs.len() == 1 || (cs.len() == 2 && cs[0] is Root) {
            Seq::empty()
        } else {
            seq!['/']
        };
        prev + sep + comp_text(cs.last())
    }
}

pub fn render(cs: &[PathComp]) -> (out: Vec<char>)
    ensures
        out@ == render_comps(comps_view(cs@)),
{
    let mut out: Vec<char> = Vec::new();
    let mut i: usize = 0;
    while i < cs.len()
        invariant
            i <= cs.len(),
            out@ == render_comps(comps_view(cs@).take(i as int)),
        decreases cs.len() - i,
    {
        let ghost t = comps_view(cs@).take(i + 1);
        assert(t.drop_last() =~= comps_view(cs@).take(i as int));
        assert(t.last() == cs@[i as int]@);
        if i > 0 {
            assert(t[0] == cs@[0]@);
        }
        if !(i == 0 || (i == 1 && matches!(cs[0], PathComp::Root))) {
            out.push('/');
        }
        match &cs[i] {
            PathComp::Root => {
                out.push('/');
                assert(comp_text(cs@[i as int]@) =~= seq!['/']);
            },
            PathComp::Cur => {
                out.push('.');
                assert(comp_text(cs@[i as int]@) =~= dot());
            },
            PathComp::Parent => {
                out.push('.');
                out.push('.');
                assert(comp_text(cs@[i as int]@) =~= dotdot());
            },
            PathComp::Normal(n) => {
                extend_chars(&mut out, n.as_slice());
            },
        }
        proof {
            let sep: Seq<char> = if t.len() == 1 || (t.len() == 2 && t[0] is Root) {
                Seq::empty()
            } else {
                seq!['/']
            };
            assert(render_comps(t) == render_comps(t.drop_last()) + sep + comp_text(t.last()));
        }
        assert(out@ =~= render_comps(t));
        i += 1;
    }
    assert(comps_view(cs@).take(cs.len() as int) =~= comps_view(cs@));
    out
}

/// `PathBuf::push` / `Path::join` for a relative `rel`: a `/` goes between
/// the two unless `base` is empty or already ends in one.
pub open spec fn join_seq(base: Seq<char>, rel: Seq<char>) -> Seq<char> {
    if is_rooted(rel) {
        rel
    } else if base.len() == 0 || base.last() == '/' {
        base + rel
    } else {
        base + seq!['/'] + rel
    }
}

pub fn join(base: &[char], rel: &[char]) -> (out: Vec<char>)
    ensures
        out@ == join_seq(base@, rel@),
{
    let mut out: Vec<char> = Vec::new();
    if rel.len() > 0 && rel[0] == '/' {
        extend_chars(&mut out, rel);
        return out;
    }
    extend_chars(&mut out, base);
    if base.len() > 0 && base[base.len() - 1] != '/' {
        out.push('/');
    }
    extend_chars(&mut out, rel);
    out
}

/// `Path::parent`, on the component list: every component but the last,
/// written back; none for a path that is empty or only the root.
pub open spec fn parent_seq(s: Seq<char>) -> Option<Seq<char>> {
    let cs = components_seq(s);
    if cs.len() == 0 || cs.last() is Root {
        None
    } else {
        Some(render_comps(cs.drop_last()))
    }
}

pub fn parent(v: &[char]) -> (r: Option<Vec<char>>)
    ensures
        match r {
            Some(p) => parent_seq(v@) == Some(p@),
            None => parent_seq(v@) is None,
        },
{
    let mut cs = components(v);
    if cs.len() == 0 {
        return None;
    }
    let ghost all = comps_view(cs@);
    let last = cs.pop().unwrap();
    assert(all.last() == last@);
    if matches!(last, PathComp::Root) {
        return None;
    }
    assert(comps_view(cs@) =~= all.drop_last());
    Some(render(&cs))
}

} // verus!
