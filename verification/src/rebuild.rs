//! The decisions of applying a new configuration: which persona scope the
//! current conversation ends up under, how the remembered session of each
//! persona scope follows a save's renames, and what a failed apply puts
//! back.
use crate::text::{str_eq, string_views};
use vstd::prelude::*;

verus! {

/// The scope the current conversation was under, after a save's changes
/// (old scope, new scope or none for a removal): the new scope of the first
/// change that renames the previous scope, else the previous scope itself.
pub open spec fn migrated_scope(changes: Seq<(Seq<char>, Option<Seq<char>>)>, previous: Seq<char>) -> Seq<char>
    decreases changes.len(),
{
    if changes.len() == 0 {
        previous
    } else if changes[0].0 == previous && changes[0].1 is Some {
        changes[0].1.unwrap()
    } else {
        migrated_scope(changes.drop_first(), previous)
    }
}

/// The views of a save's scope changes.
pub open spec fn scope_change_views(v: Seq<(String, Option<String>)>) -> Seq<(Seq<char>, Option<Seq<char>>)> {
    crate::persona::change_views(v)
}

/// The scope the previous conversation is under after the save.
pub fn migrated_previous_scope(changes: &Vec<(String, Option<String>)>, previous_scope: &str) -> (r: String)
    ensures
        r@ == migrated_scope(scope_change_views(changes@), previous_scope@),
{
    let ghost cv = scope_change_views(changes@);
    let mut i: usize = 0;
    assert(cv.skip(0) =~= cv);
    while i < changes.len()
        invariant
            i <= changes.len(),
            cv == scope_change_views(changes@),
            cv.len() == changes.len(),
            migrated_scope(cv, previous_scope@) == migrated_scope(cv.skip(i as int), previous_scope@),
        decreases changes.len() - i,
    {
        assert(cv.skip(i as int)[0] == cv[i as int]);
        assert(cv[i as int] == (changes@[i as int].0@, crate::persona::opt_chars(changes@[i as int].1)));
        if str_eq(changes[i].0.as_str(), previous_scope) {
            match &changes[i].1 {
                Some(n) => return n.clone(),
                None => {},
            }
        }
        assert(cv.skip(i as int).drop_first() =~= cv.skip(i + 1));
        i += 1;
    }
    previous_scope.to_owned()
}

/// The session each persona scope last had current, as a list of distinct
/// scopes.
pub struct PersonaSessions {
    entries: Vec<(String, String)>,
}

/// The map an association list with distinct keys stands for.
pub open spec fn map_of(entries: Seq<(String, String)>) -> Map<Seq<char>, Seq<char>>
    decreases entries.len(),
{
    if entries.len() == 0 {
        Map::empty()
    } else {
        map_of(entries.drop_last()).insert(entries.last().0@, entries.last().1@)
    }
}

proof fn lemma_map_of_dom(entries: Seq<(String, String)>)
    ensures
        forall|k: Seq<char>| #[trigger] map_of(entries).dom().contains(k) <==> exists|i: int| 0 <= i < entries.len() && (#[trigger] entries[i]).0@ == k,
        map_of(entries).dom().finite(),
    decreases entries.len(),
{
    if entries.len() > 0 {
        let t = entries.drop_last();
        lemma_map_of_dom(t);
        assert forall|k: Seq<char>| #[trigger] map_of(entries).dom().contains(k) implies exists|i: int|
            0 <= i < entries.len() && (#[trigger] entries[i]).0@ == k by {
            if k != entries.last().0@ {
                let i = choose|i: int| 0 <= i < t.len() && (#[trigger] t[i]).0@ == k;
                assert(entries[i] == t[i]);
            } else {
                assert(entries[entries.len() - 1].0@ == k);
            }
        }
        assert forall|k: Seq<char>| (exists|i: int| 0 <= i < entries.len() && (#[trigger] entries[i]).0@ == k) implies #[trigger] map_of(
            entries,
        ).dom().contains(k) by {
            let i = choose|i: int| 0 <= i < entries.len() && (#[trigger] entries[i]).0@ == k;
            if i < entries.len() - 1 {
                assert(t[i] == entries[i]);
            }
        }
    }
}

proof fn lemma_map_of_value(entries: Seq<(String, String)>, i: int)
    requires
        0 <= i < entries.len(),
        forall|a: int, b: int| 0 <= a < b < entries.len() ==> (#[trigger] entries[a]).0@ != (#[trigger] entries[b]).0@,
    ensures
        map_of(entries).dom().contains(entries[i].0@),
        map_of(entries)[entries[i].0@] == entries[i].1@,
    decreases entries.len(),
{
    lemma_map_of_dom(entries);
    assert(entries[i].0@ == entries[i].0@);
    if i < entries.len() - 1 {
        let t = entries.drop_last();
        assert(t[i] == entries[i]);
        lemma_map_of_value(t, i);
        assert(entries[i].0@ != entries[entries.len() - 1].0@);
    }
}

impl PersonaSessions {
    /// The remembered session of each scope.
    pub closed spec fn view(&self) -> Map<Seq<char>, Seq<char>> {
        map_of(self.entries@)
    }

    /// Every scope appears once.
    pub closed spec fn wf(&self) -> bool {
        forall|a: int, b: int| 0 <= a < b < self.entries@.len() ==> (#[trigger] self.entries@[a]).0@ != (#[trigger] self.entries@[b]).0@
    }

    /// No scope has a remembered session.
    pub fn new() -> (r: Self)
        ensures
            r.wf(),
            r.view() == Map::<Seq<char>, Seq<char>>::empty(),
    {
        PersonaSessions { entries: Vec::new() }
    }

    fn position(&self, scope: &str) -> (r: Option<usize>)
        requires
            self.wf(),
        ensures
            match r {
                Some(i) => i < self.entries@.len() && self.entries@[i as int].0@ == scope@,
                None => forall|i: int| 0 <= i < self.entries@.len() ==> (#[trigger] self.entries@[i]).0@ != scope@,
            },
    {
        let mut i: usize = 0;
        while i < self.entries.len()
            invariant
                i <= self.entries.len(),
                forall|k: int| 0 <= k < i ==> (#[trigger] self.entries@[k]).0@ != scope@,
            decreases self.entries.len() - i,
        {
            if str_eq(self.entries[i].0.as_str(), scope) {
                return Some(i);
            }
            i += 1;
        }
        None
    }

    /// The remembered session of a scope.
    pub fn get(&self, scope: &str) -> (r: Option<String>)
        requires
            self.wf(),
        ensures
            match r {
                Some(s) => self.view().dom().contains(scope@) && self.view()[scope@] == s@,
                None => !self.view().dom().contains(scope@),
            },
    {
        proof {
            lemma_map_of_dom(self.entries@);
        }
        match self.position(scope) {
            Some(i) => {
                proof {
                    lemma_map_of_value(self.entries@, i as int);
                }
                Some(self.entries[i].1.clone())
            },
            None => None,
        }
    }

    /// Remembers `session` for `scope`, replacing what was there.
    pub fn insert(&mut self, scope: &str, session: &str)
        requires
            old(self).wf(),
        ensures
            final(self).wf(),
            final(self).view() == old(self).view().insert(scope@, session@),
    {
        proof {
            lemma_map_of_dom(self.entries@);
        }
        match self.position(scope) {
            Some(i) => {
                let ghost before = self.entries@;
                self.entries.set(i, (scope.to_owned(), session.to_owned()));
                proof {
                    let after = self.entries@;
                    lemma_map_of_dom(after);
                    assert forall|k: Seq<char>| #[trigger] map_of(after).dom().contains(k) == map_of(before).insert(
                        scope@,
                        session@,
                    ).dom().contains(k) by {
                        if k != scope@ {
                            if map_of(before).dom().contains(k) {
                                let j = choose|j: int| 0 <= j < before.len() && (#[trigger] before[j]).0@ == k;
                                assert(after[j] == before[j]);
                            }
                            if map_of(after).dom().contains(k) {
                                let j = choose|j: int| 0 <= j < after.len() && (#[trigger] after[j]).0@ == k;
                                assert(after[j] == before[j]);
                            }
                        } else {
                            assert(after[i as int].0@ == k);
                        }
                    }
                    assert forall|k: Seq<char>| #[trigger] map_of(after).dom().contains(k) implies map_of(after)[k]
                        == map_of(before).insert(scope@, session@)[k] by {
                        let j = choose|j: int| 0 <= j < after.len() && (#[trigger] after[j]).0@ == k;
                        lemma_map_of_value(after, j);
                        if j != i {
                            assert(after[j] == before[j]);
                            lemma_map_of_value(before, j);
                        }
                    }
                    assert(map_of(after) =~= map_of(before).insert(scope@, session@));
                }
            },
            None => {
                let ghost before = self.entries@;
                self.entries.push((scope.to_owned(), session.to_owned()));
                proof {
                    assert(self.entries@.drop_last() =~= before);
                }
            },
        }
    }

    /// Forgets the remembered session of `scope` and hands it back.
    pub fn remove(&mut self, scope: &str) -> (r: Option<String>)
        requires
            old(self).wf(),
        ensures
            final(self).wf(),
            final(self).view() == old(self).view().remove(scope@),
            match r {
                Some(s) => old(self).view().dom().contains(scope@) && old(self).view()[scope@] == s@,
                None => !old(self).view().dom().contains(scope@),
            },
    {
        proof {
            lemma_map_of_dom(self.entries@);
        }
        match self.position(scope) {
            None => {
                assert(map_of(self.entries@) =~= map_of(self.entries@).remove(scope@));
                None
            },
            Some(i) => {
                let ghost before = self.entries@;
                proof {
                    lemma_map_of_value(before, i as int);
                }
                let removed = self.entries.remove(i);
                proof {
                    let after = self.entries@;
                    assert(after =~= before.remove(i as int));
                    lemma_map_of_dom(after);
                    assert forall|k: Seq<char>| #[trigger] map_of(after).dom().contains(k) == map_of(before).remove(
                        scope@,
                    ).dom().contains(k) by {
                        if map_of(before).dom().contains(k) && k != scope@ {
                            let j = choose|j: int| 0 <= j < before.len() && (#[trigger] before[j]).0@ == k;
                            if j < i {
                                assert(after[j] == before[j]);
                            } else {
                                assert(after[j - 1] == before[j]);
                            }
                        }
                        if map_of(after).dom().contains(k) {
                            let j = choose|j: int| 0 <= j < after.len() && (#[trigger] after[j]).0@ == k;
                            if j < i {
                                assert(after[j] == before[j]);
                            } else {
                                assert(after[j] == before[j + 1]);
                            }
                        }
                    }
                    assert forall|k: Seq<char>| #[trigger] map_of(after).dom().contains(k) implies map_of(after)[k]
                        == map_of(before)[k] by {
                        let j = choose|j: int| 0 <= j < after.len() && (#[trigger] after[j]).0@ == k;
                        lemma_map_of_value(after, j);
                        if j < i {
                            assert(after[j] == before[j]);
                            lemma_map_of_value(before, j);
                        } else {
                            assert(after[j] == before[j + 1]);
                            lemma_map_of_value(before, j + 1);
                        }
                    }
                    assert(map_of(after) =~= map_of(before).remove(scope@));
                }
                Some(removed.1)
            },
        }
    }
}

/// The first phase of following a save's renames: each renamed scope's
/// remembered session is taken out, in order, and kept with the new scope;
/// removed personas keep their entries.
pub open spec fn take_renamed(
    m: Map<Seq<char>, Seq<char>>,
    changes: Seq<(Seq<char>, Option<Seq<char>>)>,
) -> (Map<Seq<char>, Seq<char>>, Seq<(Seq<char>, Seq<char>)>)
    decreases changes.len(),
{
    if changes.len() == 0 {
        (m, seq![])
    } else {
        let (m1, moved) = take_renamed(m, changes.drop_last());
        let c = changes.last();
        match c.1 {
            Some(n) => if m1.dom().contains(c.0) {
                (m1.remove(c.0), moved.push((n, m1[c.0])))
            } else {
                (m1, moved)
            },
            None => (m1, moved),
        }
    }
}

/// Remembers each pair, in order (a later pair for a scope wins).
pub open spec fn put_all(m: Map<Seq<char>, Seq<char>>, pairs: Seq<(Seq<char>, Seq<char>)>) -> Map<Seq<char>, Seq<char>>
    decreases pairs.len(),
{
    if pairs.len() == 0 {
        m
    } else {
        put_all(m, pairs.drop_last()).insert(pairs.last().0, pairs.last().1)
    }
}

/// How the remembered sessions follow a save: the renamed scopes' sessions
/// move to the new scopes; when the active persona changed
/// (`switch` = previous scope after the renames, previous session, new
/// scope, new session), the previous scope keeps the previous session and
/// the new scope gets the new one.
pub open spec fn followed_sessions(
    m: Map<Seq<char>, Seq<char>>,
    changes: Seq<(Seq<char>, Option<Seq<char>>)>,
    switch: Option<(Seq<char>, Seq<char>, Seq<char>, Seq<char>)>,
) -> Map<Seq<char>, Seq<char>> {
    let (m1, moved) = take_renamed(m, changes);
    let m2 = put_all(m1, moved);
    match switch {
        Some(s) => m2.insert(s.0, s.1).insert(s.2, s.3),
        None => m2,
    }
}

/// Makes the remembered sessions follow a save (see [`followed_sessions`]);
/// `changes` are in scopes.
pub fn follow_persona_changes(
    sessions: &mut PersonaSessions,
    changes: &Vec<(String, Option<String>)>,
    switch: Option<(&str, &str, &str, &str)>,
)
    requires
        old(sessions).wf(),
    ensures
        final(sessions).wf(),
        final(sessions).view() == followed_sessions(
            old(sessions).view(),
            scope_change_views(changes@),
            match switch {
                Some(s) => Some((s.0@, s.1@, s.2@, s.3@)),
                None => None,
            },
        ),
{
    let ghost start = sessions.view();
    let ghost cv = scope_change_views(changes@);
    let mut moved: Vec<(String, String)> = Vec::new();
    let mut i: usize = 0;
    while i < changes.len()
        invariant
            i <= changes.len(),
            sessions.wf(),
            cv == scope_change_views(changes@),
            cv.len() == changes.len(),
            (sessions.view(), crate::persona::pair_views(moved@)) == take_renamed(start, cv.take(i as int)),
        decreases changes.len() - i,
    {
        let ghost t = cv.take(i + 1);
        assert(t.drop_last() =~= cv.take(i as int));
        assert(t.last() == (changes@[i as int].0@, crate::persona::opt_chars(changes@[i as int].1)));
        match &changes[i].1 {
            Some(n) => {
                let ghost before_moved = crate::persona::pair_views(moved@);
                match sessions.remove(changes[i].0.as_str()) {
                    Some(s) => {
                        moved.push((n.clone(), s));
                        assert(crate::persona::pair_views(moved@) =~= before_moved.push(
                            (n@, moved@[moved@.len() - 1].1@),
                        ));
                    },
                    None => {},
                }
            },
            None => {},
        }
        i += 1;
    }
    assert(cv.take(changes.len() as int) =~= cv);
    let ghost m1 = sessions.view();
    let ghost mv = crate::persona::pair_views(moved@);
    let mut k: usize = 0;
    while k < moved.len()
        invariant
            k <= moved.len(),
            sessions.wf(),
            mv == crate::persona::pair_views(moved@),
            mv.len() == moved.len(),
            sessions.view() == put_all(m1, mv.take(k as int)),
        decreases moved.len() - k,
    {
        let ghost t = mv.take(k + 1);
        assert(t.drop_last() =~= mv.take(k as int));
        assert(t.last() == (moved@[k as int].0@, moved@[k as int].1@));
        sessions.insert(moved[k].0.as_str(), moved[k].1.as_str());
        k += 1;
    }
    assert(mv.take(moved.len() as int) =~= mv);
    match switch {
        Some((previous_scope, previous_session, next_scope, target_session)) => {
            sessions.insert(previous_scope, previous_session);
            sessions.insert(next_scope, target_session);
        },
        None => {},
    }
}

/// A scope whose session was remembered and that a save renames, with no
/// other change of the save touching either scope and no persona switch,
/// keeps its session under the new name, and the old name forgets it.
pub proof fn law_renamed_scope_keeps_its_session(
    m: Map<Seq<char>, Seq<char>>,
    old_scope: Seq<char>,
    new_scope: Seq<char>,
)
    requires
        m.dom().contains(old_scope),
        old_scope != new_scope,
    ensures
        followed_sessions(m, seq![(old_scope, Some(new_scope))], None)[new_scope] == m[old_scope],
        followed_sessions(m, seq![(old_scope, Some(new_scope))], None).dom().contains(new_scope),
        !followed_sessions(m, seq![(old_scope, Some(new_scope))], None).dom().contains(old_scope),
{
    let cs = seq![(old_scope, Some(new_scope))];
    assert(cs.drop_last() =~= Seq::<(Seq<char>, Option<Seq<char>>)>::empty());
    assert(take_renamed(m, cs.drop_last()) == (m, Seq::<(Seq<char>, Seq<char>)>::empty()));
    assert(cs.last() == (old_scope, Some(new_scope)));
    let moved = seq![(new_scope, m[old_scope])];
    assert(Seq::<(Seq<char>, Seq<char>)>::empty().push((new_scope, m[old_scope])) =~= moved);
    assert(take_renamed(m, cs) == (m.remove(old_scope), moved));
    assert(moved.drop_last() =~= Seq::<(Seq<char>, Seq<char>)>::empty());
    assert(moved.last() == (new_scope, m[old_scope]));
    assert(put_all(m.remove(old_scope), moved.drop_last()) == m.remove(old_scope));
    assert(put_all(m.remove(old_scope), moved) == put_all(m.remove(old_scope), moved.drop_last()).insert(
        moved.last().0,
        moved.last().1,
    ));
}

/// The steps of applying a configuration, in order; a failure at one puts
/// back what the steps before it changed.
#[derive(PartialEq, Eq, Structural, Clone, Copy, Debug)]
pub enum RebuildStep {
    /// Writing the prompt documents.
    PromptFiles,
    /// Moving the persona scope directories.
    ScopeDirs,
    /// Building the new agent.
    BuildAgent,
    /// Reading the new context.
    ReadContext,
    /// Saving the configuration file (and the system prompt).
    SaveConfig,
    /// Switching to the new persona's session.
    SwitchSession,
    /// Remembering the new persona's current session.
    SetCurrent,
}

/// What a failed apply puts back.
pub struct Rollback {
    pub prompt_files: bool,
    pub scope_dirs: bool,
    pub config_file: bool,
    /// Switch back to the previous session.
    pub previous_session: bool,
}

/// The position of a step.
pub open spec fn step_index(s: RebuildStep) -> int {
    match s {
        RebuildStep::PromptFiles => 0,
        RebuildStep::ScopeDirs => 1,
        RebuildStep::BuildAgent => 2,
        RebuildStep::ReadContext => 3,
        RebuildStep::SaveConfig => 4,
        RebuildStep::SwitchSession => 5,
        RebuildStep::SetCurrent => 6,
    }
}

/// What a failure at a step puts back, as (prompt files, scope directories,
/// configuration file, previous session).
pub open spec fn rollback_of(failed: RebuildStep) -> (bool, bool, bool, bool) {
    (step_index(failed) > 0, step_index(failed) > 1, step_index(failed) >= 4, step_index(failed) == 6)
}

/// A failure puts back everything that a failure at an earlier step puts
/// back.
pub proof fn law_later_failures_restore_more(earlier: RebuildStep, later: RebuildStep)
    requires
        step_index(earlier) <= step_index(later),
    ensures
        rollback_of(earlier).0 ==> rollback_of(later).0,
        rollback_of(earlier).1 ==> rollback_of(later).1,
        rollback_of(earlier).2 ==> rollback_of(later).2,
        rollback_of(earlier).3 ==> rollback_of(later).3,
        0 <= step_index(earlier) <= 6,
{
}

/// What a failure at `failed` puts back: the prompt files once they were
/// written, the scope directories once they were moved, the configuration
/// file once the save was tried, and the session once it was switched.
pub fn rollback_for(failed: RebuildStep) -> (r: Rollback)
    ensures
        (r.prompt_files, r.scope_dirs, r.config_file, r.previous_session) == rollback_of(failed),
{
    match failed {
        RebuildStep::PromptFiles => Rollback {
            prompt_files: false,
            scope_dirs: false,
            config_file: false,
            previous_session: false,
        },
        RebuildStep::ScopeDirs => Rollback {
            prompt_files: true,
            scope_dirs: false,
            config_file: false,
            previous_session: false,
        },
        RebuildStep::BuildAgent | RebuildStep::ReadContext => Rollback {
            prompt_files: true,
            scope_dirs: true,
            config_file: false,
            previous_session: false,
        },
        RebuildStep::SaveConfig | RebuildStep::SwitchSession => Rollback {
            prompt_files: true,
            scope_dirs: true,
            config_file: true,
            previous_session: false,
        },
        RebuildStep::SetCurrent => Rollback {
            prompt_files: true,
            scope_dirs: true,
            config_file: true,
            previous_session: true,
        },
    }
}

} // verus!
