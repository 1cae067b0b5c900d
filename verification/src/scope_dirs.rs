//! Moving a persona's directories (memory data, memory state, skills) when
//! a save renames or removes the persona: each existing directory is first
//! staged beside itself under a fresh name, then moved to its new place;
//! a failure puts everything back.
use crate::goal::{decimal, decimal_string};
use crate::path::{join, join_seq, parent, parent_seq};
use crate::text::{chars_of, extend_chars, extend_str, string_of};
use vstd::prelude::*;

verus! {

/// The staging name of a scope directory: `.gqy-web-scope-<token>-<change>-<scope>`.
pub open spec fn staged_name(token: Seq<char>, change: nat, scope: nat) -> Seq<char> {
    ".gqy-web-scope-"@ + token + seq!['-'] + decimal(change) + seq!['-'] + decimal(scope)
}

/// Where a scope directory is staged: beside it, under its staging name;
/// `Err` when the directory has no parent (`persona scope path has no
/// parent`).
pub fn staged_scope_path(original: &str, token: &str, change: u64, scope: u64) -> (r: Result<String, String>)
    ensures
        match r {
            Ok(p) => parent_seq(original@) is Some && p@ == join_seq(
                parent_seq(original@).unwrap(),
                staged_name(token@, change as nat, scope as nat),
            ),
            Err(m) => parent_seq(original@) is None && m@ == "persona scope path has no parent"@,
        },
{
    let dir = match parent(&chars_of(original)) {
        Some(d) => d,
        None => return Err("persona scope path has no parent".to_owned()),
    };
    let mut name = chars_of(".gqy-web-scope-");
    extend_str(&mut name, token);
    name.push('-');
    extend_chars(&mut name, &decimal_string(change));
    name.push('-');
    extend_chars(&mut name, &decimal_string(scope));
    Ok(string_of(&join(&dir, &name)))
}

/// What putting one staged directory back does, given what exists at that
/// moment: a directory already moved to its destination (and whose staging
/// place is free) moves back to staging; then whatever is staged moves back
/// to its original place.
pub struct RestoreMoves {
    pub destination_to_staged: bool,
    pub staged_to_original: bool,
}

/// The moves that put one staged scope directory back, as (destination to
/// staging, staging to original).
pub open spec fn restore_of(has_destination: bool, destination_exists: bool, staged_exists: bool) -> (bool, bool) {
    let back = has_destination && destination_exists && !staged_exists;
    (back, staged_exists || back)
}

/// The moves that put one staged scope directory back.
pub fn restore_moves(has_destination: bool, destination_exists: bool, staged_exists: bool) -> (r: RestoreMoves)
    ensures
        (r.destination_to_staged, r.staged_to_original) == restore_of(has_destination, destination_exists, staged_exists),
{
    let back = has_destination && destination_exists && !staged_exists;
    RestoreMoves { destination_to_staged: back, staged_to_original: staged_exists || back }
}

/// Whether finishing a save deletes a staged directory: the one of a
/// removed persona (no destination), if it is still there.
pub fn finalize_removes(has_destination: bool, staged_exists: bool) -> (r: bool)
    ensures
        r == (!has_destination && staged_exists),
{
    !has_destination && staged_exists
}

/// The refusal to move a scope directory onto one that exists.
pub fn destination_taken(destination: &str) -> (r: String)
    ensures
        r@ == "persona scope destination already exists: "@ + destination@,
{
    let mut v = chars_of("persona scope destination already exists: ");
    extend_str(&mut v, destination);
    string_of(&v)
}

/// A directory that was staged, or moved on to its destination, always
/// ends up back in its original place when a failed save is undone.
pub proof fn law_restore_returns_the_directory(has_destination: bool, destination_exists: bool, staged_exists: bool)
    requires
        staged_exists || (has_destination && destination_exists),
    ensures
        restore_of(has_destination, destination_exists, staged_exists).1,
        restore_of(has_destination, destination_exists, staged_exists).0 ==> !staged_exists,
{
}

} // verus!
