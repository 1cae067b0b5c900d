//! Which stored images and artifacts a session's turns are listed with: the
//! store keeps them apart, tagged with their turn's id; the turn list skips
//! summary turns and hands each listed turn the items of its id, in stored
//! order.
use crate::text::str_eq;
use vstd::prelude::*;

verus! {

/// The items tagged with `turn`, in stored order.
pub open spec fn items_for<A>(items: Seq<(String, A)>, turn: Seq<char>) -> Seq<A>
    decreases items.len(),
{
    if items.len() == 0 {
        seq![]
    } else {
        let rest = items_for(items.drop_last(), turn);
        if items.last().0@ == turn {
            rest.push(items.last().1)
        } else {
            rest
        }
    }
}

/// The items tagged with any other turn, in stored order.
pub open spec fn items_not_for<A>(items: Seq<(String, A)>, turn: Seq<char>) -> Seq<(String, A)>
    decreases items.len(),
{
    if items.len() == 0 {
        seq![]
    } else {
        let rest = items_not_for(items.drop_last(), turn);
        if items.last().0@ == turn {
            rest
        } else {
            rest.push(items.last())
        }
    }
}

/// Splits the items into those of `turn` and the others, each in stored
/// order.
pub fn take_items_for<A>(items: Vec<(String, A)>, turn: &str) -> (r: (Vec<A>, Vec<(String, A)>))
    ensures
        r.0@ == items_for(items@, turn@),
        r.1@ == items_not_for(items@, turn@),
{
    let ghost input = items@;
    let mut rest = items;
    let mut taken: Vec<A> = Vec::new();
    let mut others: Vec<(String, A)> = Vec::new();
    let n = rest.len();
    let mut i: usize = 0;
    while rest.len() > 0
        invariant
            i + rest@.len() == n,
            n == input.len(),
            rest@ == input.skip(i as int),
            taken@ == items_for(input.take(i as int), turn@),
            others@ == items_not_for(input.take(i as int), turn@),
        decreases rest.len(),
    {
        let item = rest.remove(0);
        assert(item == input[i as int]);
        let ghost t = input.take(i + 1);
        assert(t.drop_last() =~= input.take(i as int));
        assert(t.last() == item);
        if str_eq(item.0.as_str(), turn) {
            taken.push(item.1);
        } else {
            others.push(item);
        }
        assert(input.skip(i + 1) =~= input.skip(i as int).drop_first());
        i += 1;
    }
    assert(input.take(n as int) =~= input);
    (taken, others)
}

/// The listed turns with their items: summary turns are skipped; a listed
/// turn gets the images and artifacts of its id that no earlier listed turn
/// took.
pub open spec fn listed_turns<T, A, B>(
    turns: Seq<(String, bool, T)>,
    images: Seq<(String, A)>,
    artifacts: Seq<(String, B)>,
) -> Seq<(T, Seq<A>, Seq<B>)>
    decreases turns.len(),
{
    if turns.len() == 0 {
        seq![]
    } else if turns[0].1 {
        listed_turns(turns.drop_first(), images, artifacts)
    } else {
        let id = turns[0].0@;
        seq![(turns[0].2, items_for(images, id), items_for(artifacts, id))] + listed_turns(
            turns.drop_first(),
            items_not_for(images, id),
            items_not_for(artifacts, id),
        )
    }
}

/// The view of a listed turn.
pub open spec fn listed_view<T, A, B>(v: Seq<(T, Vec<A>, Vec<B>)>) -> Seq<(T, Seq<A>, Seq<B>)> {
    v.map_values(|e: (T, Vec<A>, Vec<B>)| (e.0, e.1@, e.2@))
}

/// Hands each listed turn (id, whether it is a summary, the turn) its
/// images and artifacts; see [`listed_turns`].
pub fn group_turn_assets<T, A, B>(
    turns: Vec<(String, bool, T)>,
    images: Vec<(String, A)>,
    artifacts: Vec<(String, B)>,
) -> (r: Vec<(T, Vec<A>, Vec<B>)>)
    ensures
        listed_view(r@) == listed_turns(turns@, images@, artifacts@),
{
    let ghost all = turns@;
    let ghost whole = listed_turns(turns@, images@, artifacts@);
    let mut rest = turns;
    let mut imgs = images;
    let mut arts = artifacts;
    let mut out: Vec<(T, Vec<A>, Vec<B>)> = Vec::new();
    let n = rest.len();
    let mut i: usize = 0;
    assert(all.skip(0) =~= all);
    assert(listed_view(out@) =~= Seq::<(T, Seq<A>, Seq<B>)>::empty());
    while rest.len() > 0
        invariant
            i + rest@.len() == n,
            n == all.len(),
            rest@ == all.skip(i as int),
            listed_view(out@) + listed_turns(rest@, imgs@, arts@) == whole,
        decreases rest.len(),
    {
        let ghost before = listed_view(out@);
        let ghost r0 = rest@;
        let t = rest.remove(0);
        assert(rest@ =~= r0.drop_first());
        let (id, summary, turn) = t;
        if summary {
            assert(listed_turns(r0, imgs@, arts@) == listed_turns(rest@, imgs@, arts@));
        } else {
            let (mine, others) = take_items_for(imgs, id.as_str());
            let (my_arts, other_arts) = take_items_for(arts, id.as_str());
            proof {
                assert(listed_turns(r0, imgs@, arts@) == seq![(turn, mine@, my_arts@)] + listed_turns(
                    rest@,
                    others@,
                    other_arts@,
                ));
            }
            imgs = others;
            arts = other_arts;
            out.push((turn, mine, my_arts));
            assert(listed_view(out@) =~= before.push((turn, mine@, my_arts@)));
            assert(before + (seq![(turn, mine@, my_arts@)] + listed_turns(rest@, imgs@, arts@)) =~= before.push(
                (turn, mine@, my_arts@),
            ) + listed_turns(rest@, imgs@, arts@));
        }
        assert(all.skip(i + 1) =~= all.skip(i as int).drop_first());
        i += 1;
    }
    assert(listed_view(out@) + Seq::<(T, Seq<A>, Seq<B>)>::empty() =~= listed_view(out@));
    out
}

} // verus!
