//! Choice of a resolver: candidates are probed in list order and the first
//! one that answers is kept for the whole run.

use vstd::prelude::*;

verus! {

/// What the probe loop does after hearing the outcome of one probe.
#[derive(PartialEq, Eq, Structural, Debug)]
pub enum SelectorStep {
    /// The candidate at this index answered: use it for the whole run.
    Chosen(usize),
    /// The candidate did not answer: probe the one at this index next.
    TryNext(usize),
    /// No candidate is left to probe: the run cannot proceed.
    Exhausted,
}

/// The index the probe loop ends on, given which candidates at or after `i`
/// are reachable: the first reachable one, or `None` when none is.
pub open spec fn first_reachable(reach: Seq<bool>, i: int) -> Option<int>
    decreases reach.len() - i,
{
    if 0 <= i < reach.len() {
        if reach[i] {
            Some(i)
        } else {
            first_reachable(reach, i + 1)
        }
    } else {
        None
    }
}

/// When at least one candidate is reachable, the selection is the first
/// reachable candidate in list order, whatever the later entries hold.
pub proof fn lemma_selector_picks_first_reachable(reach: Seq<bool>, k: int)
    requires
        0 <= k < reach.len(),
        reach[k],
        forall|j: int| 0 <= j < k ==> !reach[j],
    ensures
        first_reachable(reach, 0) == Some(k),
{
    lemma_first_reachable_from(reach, 0, k);
}

proof fn lemma_first_reachable_from(reach: Seq<bool>, i: int, k: int)
    requires
        0 <= i <= k < reach.len(),
        reach[k],
        forall|j: int| i <= j < k ==> !reach[j],
    ensures
        first_reachable(reach, i) == Some(k),
    decreases k - i,
{
    if i < k {
        lemma_first_reachable_from(reach, i + 1, k);
    }
}

/// When no candidate is reachable, the selection reports exhaustion, and
/// only then.
pub proof fn lemma_selector_exhausted(reach: Seq<bool>)
    ensures
        first_reachable(reach, 0) is None <==> (forall|j: int|
            0 <= j < reach.len() ==> !reach[j]),
{
    lemma_first_reachable_none_from(reach, 0);
}

proof fn lemma_first_reachable_none_from(reach: Seq<bool>, i: int)
    requires
        0 <= i,
    ensures
        first_reachable(reach, i) is None <==> (forall|j: int|
            i <= j < reach.len() ==> !reach[j]),
    decreases reach.len() - i,
{
    if i < reach.len() {
        lemma_first_reachable_none_from(reach, i + 1);
    }
}

/// One decision of the probe loop: after probing candidate `idx` out of
/// `n`, either keep it, move to the next, or give the run up.
pub fn selector_step(idx: usize, n: usize, reachable: bool) -> (r: SelectorStep)
    requires
        idx < n,
    ensures
        reachable ==> r == SelectorStep::Chosen(idx),
        !reachable && idx + 1 < n ==> r == SelectorStep::TryNext((idx + 1) as usize),
        !reachable && idx + 1 >= n ==> r == SelectorStep::Exhausted,
{
    if reachable {
        SelectorStep::Chosen(idx)
    } else if idx + 1 < n {
        SelectorStep::TryNext(idx + 1)
    } else {
        SelectorStep::Exhausted
    }
}

/// Select a resolver given the outcome of each candidate's probe: the index
/// of the first reachable candidate, or `None` when all are down.
pub fn select_resolver(outcomes: &Vec<bool>) -> (r: Option<usize>)
    ensures
        match r {
            Some(k) => first_reachable(outcomes@, 0) == Some(k as int),
            None => first_reachable(outcomes@, 0) is None,
        },
{
    let mut i: usize = 0;
    while i < outcomes.len()
        invariant
            0 <= i <= outcomes@.len(),
            first_reachable(outcomes@, 0) == first_reachable(outcomes@, i as int),
        decreases outcomes@.len() - i,
    {
        if outcomes[i] {
            return Some(i);
        }
        i = i + 1;
    }
    None
}

} // verus!
