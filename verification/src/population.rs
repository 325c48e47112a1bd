//! Breeding: from a population of programs, some of them selected, to the
//! programs of the next generation.

use crate::mutation::{lemma_mutated_len, mutate_program, mutated, random_below};
use vstd::prelude::*;

verus! {

/// A program of a population, and whether it was selected to have
/// offspring.
pub struct Candidate {
    pub program: Vec<u8>,
    pub selected: bool,
}

/// Whether any program of the population is selected.
pub open spec fn any_selected(population: Seq<Candidate>) -> bool {
    exists|i: int| 0 <= i < population.len() && (#[trigger] population[i]).selected
}

/// Whether the program at index `i` may have offspring: it is selected, or
/// none is.
pub open spec fn eligible(population: Seq<Candidate>, i: int) -> bool {
    0 <= i < population.len() && (population[i].selected || !any_selected(population))
}

/// Whether `child` can come of `parent` by the given number of rounds of
/// mutation.
pub open spec fn descends(child: Seq<u8>, parent: Seq<u8>, rounds: nat) -> bool
    decreases rounds,
{
    if rounds == 0 {
        child == parent
    } else {
        exists|mid: Seq<u8>|
            descends(mid, parent, (rounds - 1) as nat) && #[trigger] mutated(mid, child)
    }
}

/// Whether `child` can come of a program of the population that may have
/// offspring, by the given number of rounds of mutation.
pub open spec fn bred(population: Seq<Candidate>, child: Seq<u8>, rounds: nat) -> bool {
    exists|i: int| eligible(population, i) && #[trigger] descends(
        child,
        population[i].program@,
        rounds,
    )
}

/// A descendant is not empty where its ancestor is not, and longer by one
/// byte for each round at most.
pub proof fn lemma_descends_len(child: Seq<u8>, parent: Seq<u8>, rounds: nat)
    requires
        descends(child, parent, rounds),
        parent.len() > 0,
    ensures
        0 < child.len() <= parent.len() + rounds,
    decreases rounds,
{
    if rounds > 0 {
        let mid = choose|mid: Seq<u8>|
            descends(mid, parent, (rounds - 1) as nat) && #[trigger] mutated(mid, child);
        lemma_descends_len(mid, parent, (rounds - 1) as nat);
        lemma_mutated_len(mid, child);
    }
}

/// The indices of the selected programs, in rising order.
pub fn selected_indices(population: &Vec<Candidate>) -> (chosen: Vec<usize>)
    ensures
        forall|k: int|
            0 <= k < chosen@.len() ==> (#[trigger] chosen@[k]) < population@.len()
                && population@[chosen@[k] as int].selected,
        forall|j: int, k: int| 0 <= j < k < chosen@.len() ==> chosen@[j] < chosen@[k],
        forall|i: int|
            0 <= i < population@.len() && (#[trigger] population@[i]).selected ==> chosen@.contains(
                i as usize,
            ),
{
    let mut chosen: Vec<usize> = Vec::new();
    let mut i: usize = 0;
    while i < population.len()
        invariant
            i <= population@.len(),
            forall|k: int|
                0 <= k < chosen@.len() ==> (#[trigger] chosen@[k]) < i
                    && population@[chosen@[k] as int].selected,
            forall|j: int, k: int| 0 <= j < k < chosen@.len() ==> chosen@[j] < chosen@[k],
            forall|n: int|
                0 <= n < i && (#[trigger] population@[n]).selected ==> chosen@.contains(n as usize),
        decreases population@.len() - i,
    {
        if population[i].selected {
            let ghost before = chosen@;
            chosen.push(i);
            assert forall|n: int|
                0 <= n < i + 1 && (#[trigger] population@[n]).selected implies chosen@.contains(
                n as usize,
            ) by {
                if n < i {
                    let k = choose|k: int| 0 <= k < before.len() && before[k] == n as usize;
                    assert(chosen@[k] == n as usize);
                } else {
                    assert(chosen@[chosen@.len() - 1] == n as usize);
                }
            }
        }
        i = i + 1;
    }
    chosen
}

/// A copy of `parent` after the given number of rounds of mutation.
pub fn offspring(parent: &Vec<u8>, rounds: usize) -> (child: Vec<u8>)
    requires
        parent@.len() > 0,
        parent@.len() + rounds < usize::MAX,
    ensures
        descends(child@, parent@, rounds as nat),
{
    let mut child = parent.clone();
    let mut done: usize = 0;
    while done < rounds
        invariant
            done <= rounds,
            parent@.len() > 0,
            parent@.len() + rounds < usize::MAX,
            descends(child@, parent@, done as nat),
        decreases rounds - done,
    {
        proof {
            lemma_descends_len(child@, parent@, done as nat);
        }
        mutate_program(&mut child);
        done = done + 1;
    }
    child
}

/// The programs of the next generation: `size` programs, each the
/// offspring of a program drawn at random from the selected ones, or from
/// all where none is selected.
pub fn next_generation(population: &Vec<Candidate>, size: usize, rounds: usize) -> (children: Vec<
    Vec<u8>,
>)
    requires
        population@.len() > 0,
        forall|i: int|
            0 <= i < population@.len() ==> 0 < (#[trigger] population@[i]).program@.len()
                && population@[i].program@.len() + rounds < usize::MAX,
    ensures
        children@.len() == size,
        forall|k: int| 0 <= k < size ==> bred(population@, (#[trigger] children@[k])@, rounds as nat),
{
    let chosen = selected_indices(population);
    let mut children: Vec<Vec<u8>> = Vec::new();
    while children.len() < size
        invariant
            children@.len() <= size,
            population@.len() > 0,
            forall|i: int|
                0 <= i < population@.len() ==> 0 < (#[trigger] population@[i]).program@.len()
                    && population@[i].program@.len() + rounds < usize::MAX,
            forall|k: int|
                0 <= k < chosen@.len() ==> (#[trigger] chosen@[k]) < population@.len()
                    && population@[chosen@[k] as int].selected,
            forall|i: int|
                0 <= i < population@.len() && (#[trigger] population@[i]).selected
                    ==> chosen@.contains(i as usize),
            forall|k: int|
                0 <= k < children@.len() ==> bred(
                    population@,
                    (#[trigger] children@[k])@,
                    rounds as nat,
                ),
        decreases size - children@.len(),
    {
        let parent = if chosen.len() == 0 {
            random_below(population.len())
        } else {
            chosen[random_below(chosen.len())]
        };
        let child = offspring(&population[parent].program, rounds);
        children.push(child);
    }
    children
}

} // verus!
