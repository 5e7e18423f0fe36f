//! The shuffle: a Fisher-Yates pass over a sequence, driven by random draws.

use vstd::prelude::*;
use vstd::seq_lib::to_multiset_update;

verus! {

/// `items` with the items at `i` and `j` exchanged.
pub open spec fn swapped<T>(items: Seq<T>, i: int, j: int) -> Seq<T> {
    items.update(i, items[j]).update(j, items[i])
}

/// The partner that a draw selects for position `i`: an index from 0 to `i`.
pub open spec fn partner(draw: usize, i: int) -> int {
    (draw as int) % (i + 1)
}

/// `items` after the first `steps` steps of the pass. The pass walks from the
/// last position to the first; step `k` stands at position `len - 1 - k`
/// and exchanges it with the partner that draw `k` selects.
pub open spec fn shuffled<T>(items: Seq<T>, draws: Seq<usize>, steps: nat) -> Seq<T>
    decreases steps,
{
    if steps == 0 {
        items
    } else {
        let before = shuffled(items, draws, (steps - 1) as nat);
        let i = items.len() - steps;
        swapped(before, i, partner(draws[steps - 1], i))
    }
}

/// Whether `after` is the outcome of a whole pass over `before` for some draws.
pub open spec fn is_shuffle_of<T>(after: Seq<T>, before: Seq<T>) -> bool {
    exists|draws: Seq<usize>|
        draws.len() == before.len() && after == #[trigger] shuffled(before, draws, before.len())
}

/// An exchange keeps the length and the multiset of the items.
pub proof fn lemma_swapped_keeps_items<T>(items: Seq<T>, i: int, j: int)
    requires
        0 <= i < items.len(),
        0 <= j < items.len(),
    ensures
        swapped(items, i, j).len() == items.len(),
        swapped(items, i, j).to_multiset() == items.to_multiset(),
{
    broadcast use vstd::multiset::group_multiset_axioms;

    let half = items.update(i, items[j]);
    to_multiset_update(items, i, items[j]);
    to_multiset_update(half, j, items[i]);
    items.to_multiset_ensures();
    assert(items.to_multiset().count(items[i]) > 0);
    assert(items.to_multiset().count(items[j]) > 0);
    assert(swapped(items, i, j).to_multiset() =~= items.to_multiset());
}

/// The steps of a pass keep the length and the multiset of the items,
/// whatever is drawn.
pub proof fn lemma_shuffled_keeps_items<T>(items: Seq<T>, draws: Seq<usize>, steps: nat)
    requires
        steps <= items.len(),
    ensures
        shuffled(items, draws, steps).len() == items.len(),
        shuffled(items, draws, steps).to_multiset() == items.to_multiset(),
    decreases steps,
{
    if steps > 0 {
        let before = shuffled(items, draws, (steps - 1) as nat);
        lemma_shuffled_keeps_items(items, draws, (steps - 1) as nat);
        let i = items.len() - steps;
        lemma_swapped_keeps_items(before, i, partner(draws[steps - 1], i));
    }
}

/// The first `steps` steps read only the first `steps` draws.
proof fn lemma_shuffled_reads_prefix<T>(items: Seq<T>, a: Seq<usize>, b: Seq<usize>, steps: nat)
    requires
        steps <= a.len(),
        steps <= b.len(),
        forall|k: int| 0 <= k < steps ==> a[k] == b[k],
    ensures
        shuffled(items, a, steps) == shuffled(items, b, steps),
    decreases steps,
{
    if steps > 0 {
        lemma_shuffled_reads_prefix(items, a, b, (steps - 1) as nat);
    }
}

/// A partner lies at or before the position it is drawn for.
pub proof fn lemma_partner_in_range(draw: usize, i: int)
    requires
        0 <= i,
    ensures
        0 <= partner(draw, i) <= i,
{
}

/// Once a step has stood at a position, no later step touches it: the items
/// at the last `steps` positions stay what they are after `steps` steps.
pub proof fn lemma_shuffled_settles<T>(
    items: Seq<T>,
    draws: Seq<usize>,
    steps: nat,
    later: nat,
    position: int,
)
    requires
        steps <= later <= items.len(),
        items.len() - steps <= position < items.len(),
    ensures
        shuffled(items, draws, later)[position] == shuffled(items, draws, steps)[position],
    decreases later,
{
    if later > steps {
        lemma_shuffled_settles(items, draws, steps, (later - 1) as nat, position);
        lemma_shuffled_keeps_items(items, draws, (later - 1) as nat);
        lemma_partner_in_range(draws[later - 1], items.len() - later);
    }
}

/// An exchange keeps distinct items distinct.
proof fn lemma_swapped_keeps_distinct<T>(items: Seq<T>, i: int, j: int)
    requires
        0 <= i < items.len(),
        0 <= j < items.len(),
        items.no_duplicates(),
    ensures
        swapped(items, i, j).no_duplicates(),
{
    let after = swapped(items, i, j);
    assert forall|x: int, y: int| 0 <= x < after.len() && 0 <= y < after.len() && x != y implies after[x]
        != after[y] by {
        let from_x = if x == i {
            j
        } else if x == j {
            i
        } else {
            x
        };
        let from_y = if y == i {
            j
        } else if y == j {
            i
        } else {
            y
        };
        assert(after[x] == items[from_x]);
        assert(after[y] == items[from_y]);
    }
}

/// The steps of a pass keep distinct items distinct.
proof fn lemma_shuffled_keeps_distinct<T>(items: Seq<T>, draws: Seq<usize>, steps: nat)
    requires
        steps <= items.len(),
        items.no_duplicates(),
    ensures
        shuffled(items, draws, steps).no_duplicates(),
    decreases steps,
{
    if steps > 0 {
        lemma_shuffled_keeps_distinct(items, draws, (steps - 1) as nat);
        lemma_shuffled_keeps_items(items, draws, (steps - 1) as nat);
        let i = items.len() - steps;
        lemma_partner_in_range(draws[steps - 1], i);
        lemma_swapped_keeps_distinct(
            shuffled(items, draws, (steps - 1) as nat),
            i,
            partner(draws[steps - 1], i),
        );
    }
}

/// Two passes over distinct items that end in the same arrangement went the
/// same way up to every step.
proof fn lemma_same_outcome_same_way<T>(items: Seq<T>, a: Seq<usize>, b: Seq<usize>, steps: nat)
    requires
        steps <= items.len(),
        items.no_duplicates(),
        shuffled(items, a, items.len()) == shuffled(items, b, items.len()),
    ensures
        shuffled(items, a, steps) == shuffled(items, b, steps),
        forall|k: int|
            0 <= k < steps ==> partner(a[k], items.len() - 1 - k) == partner(
                b[k],
                items.len() - 1 - k,
            ),
    decreases steps,
{
    if steps > 0 {
        let earlier = (steps - 1) as nat;
        lemma_same_outcome_same_way(items, a, b, earlier);
        let state = shuffled(items, a, earlier);
        let i = items.len() - steps;
        let ja = partner(a[steps - 1], i);
        let jb = partner(b[steps - 1], i);
        lemma_partner_in_range(a[steps - 1], i);
        lemma_partner_in_range(b[steps - 1], i);
        lemma_shuffled_keeps_items(items, a, earlier);
        lemma_shuffled_keeps_distinct(items, a, earlier);
        lemma_shuffled_settles(items, a, steps, items.len(), i);
        lemma_shuffled_settles(items, b, steps, items.len(), i);
        assert(shuffled(items, a, steps)[i] == state[ja]);
        assert(shuffled(items, b, steps)[i] == state[jb]);
        assert(ja == jb);
    }
}

/// The pass is unbiased at its core: over distinct items, passes that
/// choose different partners at any step end in different arrangements. With
/// `i + 1` partners to choose from at position `i`, the `n!` ways through a
/// pass over `n` items give `n!` arrangements, each of them once.
pub proof fn lemma_different_partners_different_outcome<T>(
    items: Seq<T>,
    a: Seq<usize>,
    b: Seq<usize>,
)
    requires
        items.no_duplicates(),
        shuffled(items, a, items.len()) == shuffled(items, b, items.len()),
    ensures
        forall|k: int|
            0 <= k < items.len() ==> partner(a[k], items.len() - 1 - k) == partner(
                b[k],
                items.len() - 1 - k,
            ),
{
    lemma_same_outcome_same_way(items, a, b, items.len());
}

/// Draws whose first `steps` steps put the last `steps` items of `target`
/// in place.
proof fn lemma_reach<T>(items: Seq<T>, target: Seq<T>, steps: nat) -> (draws: Seq<usize>)
    requires
        steps <= items.len() <= usize::MAX,
        items.no_duplicates(),
        target.no_duplicates(),
        target.to_multiset() == items.to_multiset(),
    ensures
        draws.len() == steps,
        forall|p: int|
            items.len() - steps <= p < items.len() ==> shuffled(items, draws, steps)[p]
                == target[p],
    decreases steps,
{
    if steps == 0 {
        Seq::empty()
    } else {
        let earlier = (steps - 1) as nat;
        let before = lemma_reach(items, target, earlier);
        let state = shuffled(items, before, earlier);
        let i = items.len() - steps;
        lemma_shuffled_keeps_items(items, before, earlier);
        vstd::seq_lib::to_multiset_len(items);
        vstd::seq_lib::to_multiset_len(target);
        vstd::seq_lib::to_multiset_contains(target, target[i]);
        vstd::seq_lib::to_multiset_contains(state, target[i]);
        assert(target.contains(target[i]));
        let j = choose|j: int| 0 <= j < state.len() && state[j] == target[i];
        assert(j <= i) by {
            if j > i {
                assert(state[j] == target[j]);
            }
        }
        vstd::arithmetic::div_mod::lemma_small_mod(j as nat, (i + 1) as nat);
        let draws = before.push(j as usize);
        lemma_shuffled_reads_prefix(items, before, draws, earlier);
        assert(shuffled(items, draws, steps) == swapped(state, i, j));
        draws
    }
}

/// Every arrangement can come out: over distinct items, each sequence that
/// holds the same items is the outcome of a pass for some draws.
pub proof fn lemma_every_arrangement_is_reached<T>(items: Seq<T>, target: Seq<T>)
    requires
        items.len() <= usize::MAX,
        items.no_duplicates(),
        target.to_multiset() == items.to_multiset(),
    ensures
        is_shuffle_of(target, items),
{
    broadcast use vstd::multiset::group_multiset_axioms;

    items.lemma_multiset_has_no_duplicates();
    target.lemma_multiset_has_no_duplicates_conv();
    vstd::seq_lib::to_multiset_len(items);
    vstd::seq_lib::to_multiset_len(target);
    let draws = lemma_reach(items, target, items.len());
    lemma_shuffled_keeps_items(items, draws, items.len());
    assert(shuffled(items, draws, items.len()) =~= target);
}

/// A sequence is the outcome of a pass only if it holds the same items.
pub proof fn lemma_shuffle_keeps_items<T>(after: Seq<T>, before: Seq<T>)
    requires
        is_shuffle_of(after, before),
    ensures
        after.len() == before.len(),
        after.to_multiset() == before.to_multiset(),
{
    let draws = choose|draws: Seq<usize>|
        draws.len() == before.len() && after == #[trigger] shuffled(before, draws, before.len());
    lemma_shuffled_keeps_items(before, draws, before.len());
}

/// `<[T]>::swap` on the vector's items: exchanges the items at `i` and `j`
/// and leaves every other item where it is. It panics where an index lies
/// outside the vector, which `requires` excludes.
#[verifier::external_body]
fn swap_items<T>(items: &mut Vec<T>, i: usize, j: usize)
    requires
        i < old(items).len(),
        j < old(items).len(),
    ensures
        final(items)@ == swapped(old(items)@, i as int, j as int),
{
    items.swap(i, j);
}

/// `rand::random::<usize>()`: a number from the thread's generator. Nothing is
/// claimed of its value.
#[verifier::external_body]
fn random_draw() -> (draw: usize) {
    rand::random::<usize>()
}

/// One step of the pass: exchanges the item at position `i` with the partner
/// that `draw` selects among the positions 0 to `i`.
pub fn shuffle_step<T>(files: &mut Vec<T>, i: usize, draw: usize)
    requires
        i < old(files).len(),
    ensures
        final(files)@ == swapped(old(files)@, i as int, partner(draw, i as int)),
{
    let j: usize = draw % (i + 1);
    swap_items(files, i, j);
}

/// The number of steps that `draws` suffice for in a pass over `len` items.
pub open spec fn steps_given(len: nat, draws: nat) -> nat {
    if draws < len {
        draws
    } else {
        len
    }
}

/// The pass with the draws given: step `k` uses `draws[k]`. The pass is whole
/// where there is a draw for every item, and stops after the last draw
/// otherwise.
pub fn shuffle_with<T>(files: &mut Vec<T>, draws: &Vec<usize>)
    ensures
        final(files)@ == shuffled(
            old(files)@,
            draws@,
            steps_given(old(files)@.len(), draws@.len()),
        ),
        final(files)@.to_multiset() == old(files)@.to_multiset(),
{
    let ghost before = files@;
    let n: usize = files.len();
    let steps: usize = if draws.len() < n {
        draws.len()
    } else {
        n
    };
    let mut done: usize = 0;
    while done < steps
        invariant
            n == before.len(),
            files@.len() == n,
            done <= steps <= n,
            steps <= draws.len(),
            files@ == shuffled(before, draws@, done as nat),
        decreases steps - done,
    {
        proof {
            lemma_shuffled_keeps_items(before, draws@, done as nat);
        }
        shuffle_step(files, n - 1 - done, draws[done]);
        done = done + 1;
    }
    proof {
        lemma_shuffled_keeps_items(before, draws@, steps as nat);
    }
}

/// Shuffles `files` in place: one pass, each step with a fresh random draw.
/// The outcome is a rearrangement of the same items. How likely each
/// arrangement is rests with the generator, and is not part of the
/// contract: a draw is reduced to a partner by its remainder.
pub fn shuffle_files<T>(files: &mut Vec<T>)
    ensures
        is_shuffle_of(final(files)@, old(files)@),
        final(files)@.to_multiset() == old(files)@.to_multiset(),
{
    let ghost before = files@;
    let ghost mut draws: Seq<usize> = Seq::empty();
    let n: usize = files.len();
    let mut done: usize = 0;
    while done < n
        invariant
            n == before.len(),
            files@.len() == n,
            done <= n,
            draws.len() == done,
            files@ == shuffled(before, draws, done as nat),
        decreases n - done,
    {
        let draw = random_draw();
        proof {
            lemma_shuffled_keeps_items(before, draws, done as nat);
            lemma_shuffled_reads_prefix(before, draws, draws.push(draw), done as nat);
            draws = draws.push(draw);
        }
        shuffle_step(files, n - 1 - done, draw);
        done = done + 1;
    }
    proof {
        lemma_shuffled_keeps_items(before, draws, n as nat);
        assert(files@ == shuffled(before, draws, before.len()));
    }
}

} // verus!
