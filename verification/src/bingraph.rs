use vstd::prelude::*;

use crate::binnode::BinNode;
use crate::binnode::pair_choices;
use crate::binnode::pair_values;

verus! {

/// The error reported when a pushed pair sequence does not cover exactly
/// the graph's dimensions.
#[derive(Clone, Copy, Debug, PartialEq, Eq, Structural)]
pub struct DimensionMismatch;

/// Models a multidimensional binary state: the recorded states together
/// with one action descriptor per dimension.
pub struct BinGraph<TAction> {
    /// The states and the bits that can be flipped.
    pub data: Vec<BinNode>,
    /// A description of the action taken when flipping bits.
    pub actions: Vec<TAction>,
}

/// `e` records exactly the state reached from `s` by flipping bit `i`:
/// over every dimension of `e`, the bit assignments agree, except at `i`,
/// where they are negations of one another.
pub open spec fn toggles_to(e: BinNode, s: BinNode, i: int) -> bool {
    forall|j: int|
        0 <= j < e.state@.len() ==> (#[trigger] e.state@[j]) == (if j == i {
            !s.state@[j]
        } else {
            s.state@[j]
        })
}

impl<TAction> BinGraph<TAction> {
    /// Every recorded entry assigns one bit and one choice marker to each
    /// of the graph's dimensions.
    pub open spec fn wf(self) -> bool {
        forall|k: int|
            0 <= k < self.data@.len() ==> (#[trigger] self.data@[k]).state@.len()
                == self.actions@.len() && self.data@[k].choices@.len() == self.actions@.len()
    }

    /// Some recorded entry is exactly `s` with bit `i` flipped.
    pub open spec fn contains_choice_spec(self, s: BinNode, i: int) -> bool {
        exists|k: int| 0 <= k < self.data@.len() && toggles_to(#[trigger] self.data@[k], s, i)
    }

    /// Closure: every open choice of every recorded entry leads to a
    /// recorded entry.
    pub open spec fn complete_spec(self) -> bool {
        forall|k: int, i: int|
            0 <= k < self.data@.len() && 0 <= i < self.data@[k].choices@.len()
                && (#[trigger] self.data@[k].choices@[i]) ==> self.contains_choice_spec(
                self.data@[k],
                i,
            )
    }

    /// Creates a new BinGraph bound to the given action descriptors; one
    /// dimension per descriptor, and nothing recorded yet.
    pub fn new(actions: Vec<TAction>) -> (g: BinGraph<TAction>)
        ensures
            g.data@.len() == 0,
            g.actions == actions,
            g.wf(),
    {
        BinGraph { data: Vec::new(), actions }
    }

    /// Adds new information about state and choices.
    ///
    /// The first bool indicates state, the second whether it can change.
    /// A pair sequence that does not cover exactly the graph's dimensions
    /// is rejected and leaves the graph untouched.
    pub fn push_pairs(&mut self, pairs: &[(bool, bool)]) -> (r: Result<(), DimensionMismatch>)
        ensures
            r is Ok <==> pairs@.len() == old(self).actions@.len(),
            final(self).actions == old(self).actions,
            r is Ok ==> final(self).data@.len() == old(self).data@.len() + 1 && (forall|k: int|
                0 <= k < old(self).data@.len() ==> final(self).data@[k] == old(self).data@[k])
                && final(self).data@.last().state@ == pair_values(pairs@)
                && final(self).data@.last().choices@ == pair_choices(pairs@),
            r is Err ==> *final(self) == *old(self) && r == Err::<(), DimensionMismatch>(
                DimensionMismatch,
            ),
            old(self).wf() ==> final(self).wf(),
    {
        if pairs.len() != self.actions.len() {
            return Err(DimensionMismatch);
        }
        let node = BinNode::from_pairs(pairs);
        self.data.push(node);
        Ok(())
    }

    /// Returns true if the graph contains a choice: some recorded entry
    /// is exactly `state` with bit `i` flipped.
    pub fn contains_choice(&self, state: &BinNode, i: usize) -> (r: bool)
        requires
            self.wf(),
            state.state@.len() == self.actions@.len(),
        ensures
            r == self.contains_choice_spec(*state, i as int),
    {
        let mut k: usize = 0;
        while k < self.data.len()
            invariant
                self.wf(),
                state.state@.len() == self.actions@.len(),
                k <= self.data@.len(),
                forall|k2: int| 0 <= k2 < k ==> !toggles_to(#[trigger] self.data@[k2], *state, i as int),
            decreases self.data@.len() - k,
        {
            if entry_matches(&self.data[k], state, i) {
                return true;
            }
            k = k + 1;
        }
        false
    }

    /// Finds out if graph is complete: every open choice of every
    /// recorded entry resolves to a recorded entry.
    pub fn is_complete(&self) -> (r: bool)
        requires
            self.wf(),
        ensures
            r == self.complete_spec(),
    {
        let mut k: usize = 0;
        while k < self.data.len()
            invariant
                self.wf(),
                k <= self.data@.len(),
                forall|k2: int, i: int|
                    0 <= k2 < k && 0 <= i < self.data@[k2].choices@.len()
                        && (#[trigger] self.data@[k2].choices@[i]) ==> self.contains_choice_spec(
                        self.data@[k2],
                        i,
                    ),
            decreases self.data@.len() - k,
        {
            let missing = self.data[k].with_choices_not_in(self);
            if missing.len() > 0 {
                proof {
                    let i: int = missing@[0] as int;
                    assert(self.data@[k as int].choices@[i]);
                    assert(!self.contains_choice_spec(self.data@[k as int], i));
                }
                return false;
            }
            proof {
                assert forall|i: int|
                    0 <= i < self.data@[k as int].choices@.len()
                        && (#[trigger] self.data@[k as int].choices@[i])
                        implies self.contains_choice_spec(self.data@[k as int], i) by {
                    if !self.contains_choice_spec(self.data@[k as int], i) {
                        assert(missing@.contains(i as usize));
                        assert(false);
                    }
                }
            }
            k = k + 1;
        }
        true
    }

    /// Returns the suggestion in default state that is open to all
    /// choices: every bit false, every choice open.
    pub fn default_suggestion(&self) -> (node: BinNode)
        ensures
            node.state@.len() == self.actions@.len(),
            node.choices@.len() == self.actions@.len(),
            forall|i: int| 0 <= i < node.state@.len() ==> !(#[trigger] node.state@[i]),
            forall|i: int| 0 <= i < node.choices@.len() ==> (#[trigger] node.choices@[i]),
    {
        let mut open_for_all: Vec<(bool, bool)> = Vec::new();
        let mut k: usize = 0;
        while k < self.actions.len()
            invariant
                k <= self.actions@.len(),
                open_for_all@.len() == k,
                forall|i: int| 0 <= i < k ==> (#[trigger] open_for_all@[i]) == (false, true),
            decreases self.actions@.len() - k,
        {
            open_for_all.push((false, true));
            k = k + 1;
        }
        BinNode::from_pairs(open_for_all.as_slice())
    }

    /// Suggests a missing state with choices: the all-open default state
    /// while nothing has been recorded yet, and nothing afterwards.
    pub fn suggestion(&self) -> (r: Option<BinNode>)
        ensures
            r is Some <==> self.data@.len() == 0,
            r matches Some(node) ==> node.state@.len() == self.actions@.len()
                && node.choices@.len() == self.actions@.len() && (forall|i: int|
                0 <= i < node.state@.len() ==> !(#[trigger] node.state@[i])) && (forall|i: int|
                0 <= i < node.choices@.len() ==> (#[trigger] node.choices@[i])),
    {
        if self.data.len() == 0 {
            Some(self.default_suggestion())
        } else {
            None
        }
    }
}

/// A graph holding exactly one recorded state never contains the result
/// of toggling a dimension away from that state: the target of any flip
/// differs from the sole entry at the flipped bit.
pub proof fn lemma_single_entry_misses_all_choices<TAction>(
    g: BinGraph<TAction>,
    s: BinNode,
    i: int,
)
    requires
        g.data@.len() == 1,
        g.data@[0] == s,
        0 <= i < s.state@.len(),
    ensures
        !g.contains_choice_spec(s, i),
{
    if g.contains_choice_spec(s, i) {
        let k = choose|k: int| 0 <= k < g.data@.len() && toggles_to(g.data@[k], s, i);
        let e = g.data@[k];
        assert(e == s);
        assert(toggles_to(e, s, i));
        assert(e.state@[i] == !s.state@[i]);
        assert(e.state@[i] == s.state@[i]);
        assert(false);
    }
}

/// A graph in which some recorded entry has an open choice whose toggle
/// target is unrecorded is not complete.
pub proof fn lemma_unresolved_choice_incomplete<TAction>(g: BinGraph<TAction>, k: int, i: int)
    requires
        0 <= k < g.data@.len(),
        0 <= i < g.data@[k].choices@.len(),
        g.data@[k].choices@[i],
        !g.contains_choice_spec(g.data@[k], i),
    ensures
        !g.complete_spec(),
{
    assert(g.data@[k].choices@[i]);
}

/// An incomplete graph becomes complete once the target of its
/// unresolved toggles is pushed: if every open choice of every entry of
/// `before` either already resolved or toggles to the newly appended
/// entry, and that entry opens no choices of its own, then the grown
/// graph `after` is complete.
pub proof fn lemma_pushed_target_completes<TAction>(
    before: BinGraph<TAction>,
    after: BinGraph<TAction>,
)
    requires
        after.data@.len() == before.data@.len() + 1,
        forall|k: int| 0 <= k < before.data@.len() ==> after.data@[k] == before.data@[k],
        forall|k: int, i: int|
            0 <= k < before.data@.len() && 0 <= i < before.data@[k].choices@.len()
                && (#[trigger] before.data@[k].choices@[i]) ==> before.contains_choice_spec(
                before.data@[k],
                i,
            ) || toggles_to(after.data@.last(), before.data@[k], i),
        forall|i: int|
            0 <= i < after.data@.last().choices@.len() ==> !(#[trigger] after.data@.last().choices@[i]),
    ensures
        after.complete_spec(),
{
    let n = before.data@.len() as int;
    assert forall|k: int, i: int|
        0 <= k < after.data@.len() && 0 <= i < after.data@[k].choices@.len()
            && (#[trigger] after.data@[k].choices@[i]) implies after.contains_choice_spec(
        after.data@[k],
        i,
    ) by {
        if k < n {
            let e = before.data@[k];
            assert(e.choices@[i]);
            if before.contains_choice_spec(e, i) {
                let w = choose|w: int| 0 <= w < before.data@.len() && toggles_to(
                    before.data@[w],
                    e,
                    i,
                );
                assert(after.data@[w] == before.data@[w]);
                assert(toggles_to(after.data@[w], e, i));
            } else {
                assert(toggles_to(after.data@[n], e, i));
            }
        } else {
            assert(after.data@[k] == after.data@.last());
            assert(!after.data@.last().choices@[i]);
        }
    }
}

/// Whether `e` is exactly `s` with bit `i` flipped, over the dimensions
/// of `e`.
fn entry_matches(e: &BinNode, s: &BinNode, i: usize) -> (r: bool)
    requires
        e.state@.len() <= s.state@.len(),
    ensures
        r == toggles_to(*e, *s, i as int),
{
    let mut j: usize = 0;
    while j < e.state.len()
        invariant
            e.state@.len() <= s.state@.len(),
            j <= e.state@.len(),
            forall|j2: int|
                0 <= j2 < j ==> (#[trigger] e.state@[j2]) == (if j2 == i as int {
                    !s.state@[j2]
                } else {
                    s.state@[j2]
                }),
        decreases e.state@.len() - j,
    {
        let expected: bool = if j == i {
            !s.state[j]
        } else {
            s.state[j]
        };
        if e.state[j] != expected {
            proof {
                assert(e.state@[j as int] != (if j as int == i as int {
                    !s.state@[j as int]
                } else {
                    s.state@[j as int]
                }));
            }
            return false;
        }
        j = j + 1;
    }
    true
}

} // verus!
