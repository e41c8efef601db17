//! Chains of inheritance between templates.
//!
//! A template may extend another, which may extend a third, and so on. Such
//! a chain must end: a set of templates in which a chain runs in a circle
//! has no meaning. Here a set is seen as its links alone: for each template,
//! the position of the template it extends, if it extends one of the set.

use vstd::prelude::*;

verus! {

/// Whether the chain that starts at `from` ends within `steps` links. A
/// position outside `links` stands for a template that is not in the set,
/// where a chain ends as well.
pub open spec fn ends_within(links: Seq<Option<usize>>, from: int, steps: nat) -> bool
    decreases steps,
{
    if 0 <= from < links.len() {
        match links[from] {
            None => true,
            Some(next) => steps > 0 && ends_within(links, next as int, (steps - 1) as nat),
        }
    } else {
        true
    }
}

/// Whether the chain that starts at `from` ends.
pub open spec fn chain_ends(links: Seq<Option<usize>>, from: int) -> bool {
    exists|steps: nat| ends_within(links, from, steps)
}

/// Whether every chain ends.
pub open spec fn chains_end(links: Seq<Option<usize>>) -> bool {
    forall|from: int| 0 <= from < links.len() ==> chain_ends(links, from)
}

/// How many entries of `marks` are `false`.
pub open spec fn count_false(marks: Seq<bool>) -> nat
    decreases marks.len(),
{
    if marks.len() == 0 {
        0
    } else {
        count_false(marks.drop_last()) + if marks.last() {
            0nat
        } else {
            1nat
        }
    }
}

/// A chain that ends within some number of links ends within any greater
/// number.
pub proof fn lemma_ends_within_more(links: Seq<Option<usize>>, from: int, fewer: nat, more: nat)
    requires
        fewer <= more,
        ends_within(links, from, fewer),
    ensures
        ends_within(links, from, more),
    decreases fewer,
{
    if 0 <= from < links.len() {
        match links[from] {
            None => {},
            Some(next) => {
                lemma_ends_within_more(
                    links,
                    next as int,
                    (fewer - 1) as nat,
                    (more - 1) as nat,
                );
            },
        }
    }
}

/// Once one more link ends no further chain, no number of links does.
proof fn lemma_settled(links: Seq<Option<usize>>, round: nat, steps: nat, from: int)
    requires
        forall|k: int|
            0 <= k < links.len() ==> ends_within(links, k, round + 1) == ends_within(
                links,
                k,
                round,
            ),
        round <= steps,
    ensures
        ends_within(links, from, steps) == ends_within(links, from, round),
    decreases steps,
{
    if steps > round && 0 <= from < links.len() {
        match links[from] {
            None => {},
            Some(next) => {
                lemma_settled(links, round, (steps - 1) as nat, next as int);
                assert(ends_within(links, from, round + 1) == ends_within(
                    links,
                    next as int,
                    round,
                ));
            },
        }
    }
}

/// Marks that only turn from `false` to `true` do not count more `false`.
proof fn lemma_count_not_more(before: Seq<bool>, after: Seq<bool>)
    requires
        before.len() == after.len(),
        forall|k: int| 0 <= k < before.len() && before[k] ==> after[k],
    ensures
        count_false(after) <= count_false(before),
    decreases before.len(),
{
    if before.len() > 0 {
        lemma_count_not_more(before.drop_last(), after.drop_last());
    }
}

/// Marks of which one turns from `false` to `true`, and none back, count
/// fewer `false`.
proof fn lemma_count_fewer(before: Seq<bool>, after: Seq<bool>, turned: int)
    requires
        before.len() == after.len(),
        forall|k: int| 0 <= k < before.len() && before[k] ==> after[k],
        0 <= turned < before.len(),
        !before[turned],
        after[turned],
    ensures
        count_false(after) < count_false(before),
    decreases before.len(),
{
    if turned == before.len() - 1 {
        lemma_count_not_more(before.drop_last(), after.drop_last());
    } else {
        lemma_count_fewer(before.drop_last(), after.drop_last(), turned);
    }
}

/// Finds the first template whose chain of links never ends.
pub fn endless_chain(links: &Vec<Option<usize>>) -> (found: Option<usize>)
    ensures
        match found {
            Some(start) => {
                &&& start < links.len()
                &&& !chain_ends(links@, start as int)
                &&& forall|k: int| 0 <= k < start ==> chain_ends(links@, k)
            },
            None => chains_end(links@),
        },
{
    let count = links.len();
    let mut done: Vec<bool> = Vec::new();
    let mut i: usize = 0;
    while i < count
        invariant
            count == links.len(),
            i <= count,
            done.len() == i,
            forall|k: int| 0 <= k < i ==> done[k] == ends_within(links@, k, 0),
        decreases count - i,
    {
        done.push(links[i].is_none());
        i = i + 1;
    }
    let ghost mut round: nat = 0;
    let mut settled = false;
    while !settled
        invariant
            count == links.len(),
            done.len() == count,
            forall|k: int| 0 <= k < count ==> done[k] == ends_within(links@, k, round),
            settled ==> forall|k: int|
                0 <= k < count ==> ends_within(links@, k, round + 1) == ends_within(
                    links@,
                    k,
                    round,
                ),
        decreases
                count_false(done@),
                if settled {
                    0int
                } else {
                    1int
                },
    {
        let mut next: Vec<bool> = Vec::new();
        let mut changed = false;
        let ghost mut turned: int = 0;
        let mut j: usize = 0;
        while j < count
            invariant
                count == links.len(),
                done.len() == count,
                j <= count,
                next.len() == j,
                forall|k: int| 0 <= k < count ==> done[k] == ends_within(links@, k, round),
                forall|k: int| 0 <= k < j ==> next[k] == ends_within(links@, k, round + 1),
                !changed ==> forall|k: int| 0 <= k < j ==> next[k] == done[k],
                changed ==> 0 <= turned < j && !done[turned] && next[turned],
            decreases count - j,
        {
            let ends = match links[j] {
                None => true,
                Some(target) => target >= count || done[target],
            };
            proof {
                match links[j as int] {
                    None => {},
                    Some(target) => {
                        assert((round + 1 - 1) as nat == round);
                        if target < count {
                            assert(done[target as int] == ends_within(
                                links@,
                                target as int,
                                round,
                            ));
                        } else {
                            assert(ends_within(links@, target as int, round));
                        }
                        assert(ends_within(links@, j as int, round + 1) == ends_within(
                            links@,
                            target as int,
                            round,
                        ));
                    },
                }
                assert(ends == ends_within(links@, j as int, round + 1));
                if done[j as int] {
                    lemma_ends_within_more(links@, j as int, round, round + 1);
                }
            }
            if ends != done[j] {
                changed = true;
                proof {
                    turned = j as int;
                }
            }
            next.push(ends);
            j = j + 1;
        }
        if changed {
            proof {
                assert forall|k: int| 0 <= k < count && done@[k] implies next@[k] by {
                    lemma_ends_within_more(links@, k, round, round + 1);
                }
                lemma_count_fewer(done@, next@, turned);
                round = round + 1;
            }
            done = next;
        } else {
            assert forall|k: int| 0 <= k < count implies ends_within(links@, k, round + 1)
                == ends_within(links@, k, round) by {
                assert(next[k] == done[k]);
            }
            settled = true;
        }
    }
    let mut start: usize = 0;
    while start < count
        invariant
            count == links.len(),
            done.len() == count,
            start <= count,
            forall|k: int| 0 <= k < count ==> done[k] == ends_within(links@, k, round),
            forall|k: int|
                0 <= k < count ==> ends_within(links@, k, round + 1) == ends_within(
                    links@,
                    k,
                    round,
                ),
            forall|k: int| 0 <= k < start ==> chain_ends(links@, k),
        decreases count - start,
    {
        if !done[start] {
            proof {
                assert forall|steps: nat| !ends_within(links@, start as int, steps) by {
                    if steps <= round {
                        if ends_within(links@, start as int, steps) {
                            lemma_ends_within_more(links@, start as int, steps, round);
                        }
                    } else {
                        lemma_settled(links@, round, steps, start as int);
                    }
                }
            }
            return Some(start);
        }
        assert(ends_within(links@, start as int, round));
        start = start + 1;
    }
    None
}

} // verus!
