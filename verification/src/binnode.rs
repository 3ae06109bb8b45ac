use vstd::prelude::*;

use crate::bingraph::BinGraph;

verus! {

/// One recorded binary state: a bit assignment over the dimensions
/// together with a per-dimension marker of which bits may currently be
/// flipped.
#[derive(Debug, Clone)]
pub struct BinNode {
    /// The state composed of bits.
    pub state: Vec<bool>,
    /// The choices represented as bits that can be flipped.
    pub choices: Vec<bool>,
}

/// Whether two bit sequences hold exactly the same bits.
fn bits_eq(a: &Vec<bool>, b: &Vec<bool>) -> (r: bool)
    ensures
        r == (a@ == b@),
{
    if a.len() != b.len() {
        return false;
    }
    let mut j: usize = 0;
    while j < a.len()
        invariant
            a@.len() == b@.len(),
            j <= a@.len(),
            forall|j2: int| 0 <= j2 < j ==> a@[j2] == b@[j2],
        decreases a@.len() - j,
    {
        if a[j] != b[j] {
            return false;
        }
        j = j + 1;
    }
    proof {
        assert(a@ =~= b@);
    }
    true
}

impl PartialEq for BinNode {
    /// Equality is structural: both the bits and the choice markers must
    /// agree on every dimension.
    fn eq(&self, other: &BinNode) -> (r: bool) {
        bits_eq(&self.state, &other.state) && bits_eq(&self.choices, &other.choices)
    }
}

impl vstd::std_specs::cmp::PartialEqSpecImpl for BinNode {
    open spec fn obeys_eq_spec() -> bool {
        true
    }

    open spec fn eq_spec(&self, other: &BinNode) -> bool {
        self.state@ == other.state@ && self.choices@ == other.choices@
    }
}

/// The first components of a pair sequence: the bit assignment.
pub open spec fn pair_values(pairs: Seq<(bool, bool)>) -> Seq<bool> {
    Seq::new(pairs.len(), |i: int| pairs[i].0)
}

/// The second components of a pair sequence: the togglable markers.
pub open spec fn pair_choices(pairs: Seq<(bool, bool)>) -> Seq<bool> {
    Seq::new(pairs.len(), |i: int| pairs[i].1)
}

impl BinNode {
    /// Both bit sequences assign one bit to every dimension.
    pub open spec fn wf(self) -> bool {
        self.state@.len() == self.choices@.len()
    }

    /// Gets pairs from pair of booleans: `state[i]` is the first component
    /// of the `i`th pair and `choices[i]` the second.
    pub fn from_pairs(pairs: &[(bool, bool)]) -> (node: BinNode)
        ensures
            node.state@ == pair_values(pairs@),
            node.choices@ == pair_choices(pairs@),
            node.wf(),
    {
        let mut state: Vec<bool> = Vec::new();
        let mut choices: Vec<bool> = Vec::new();
        let mut k: usize = 0;
        while k < pairs.len()
            invariant
                k <= pairs@.len(),
                state@.len() == k,
                choices@.len() == k,
                forall|i: int| 0 <= i < k ==> state@[i] == pairs@[i].0,
                forall|i: int| 0 <= i < k ==> choices@[i] == pairs@[i].1,
            decreases pairs@.len() - k,
        {
            let (a, b) = pairs[k];
            state.push(a);
            choices.push(b);
            k = k + 1;
        }
        proof {
            assert(state@ =~= pair_values(pairs@));
            assert(choices@ =~= pair_choices(pairs@));
        }
        BinNode { state, choices }
    }

    /// Lists, in ascending order, every dimension whose bit may currently
    /// be flipped.
    pub fn with_choices(&self) -> (r: Vec<usize>)
        ensures
            self.choices@.len() <= usize::MAX,
            forall|k: int|
                0 <= k < r@.len() ==> (#[trigger] r@[k]) < self.choices@.len()
                    && self.choices@[r@[k] as int],
            forall|i: int|
                0 <= i < self.choices@.len() && (#[trigger] self.choices@[i]) ==> r@.contains(
                    i as usize,
                ),
            forall|k1: int, k2: int| 0 <= k1 < k2 < r@.len() ==> r@[k1] < r@[k2],
    {
        let mut r: Vec<usize> = Vec::new();
        let mut i: usize = 0;
        while i < self.choices.len()
            invariant
                i <= self.choices@.len(),
                forall|k: int|
                    0 <= k < r@.len() ==> (#[trigger] r@[k]) < i
                        && self.choices@[r@[k] as int],
                forall|j: usize| j < i && self.choices@[j as int] ==> r@.contains(j),
                forall|k1: int, k2: int| 0 <= k1 < k2 < r@.len() ==> r@[k1] < r@[k2],
            decreases self.choices@.len() - i,
        {
            let ghost r0 = r@;
            let open_here = self.choices[i];
            if open_here {
                r.push(i);
            }
            proof {
                if open_here {
                    assert(r@[r0.len() as int] == i);
                    assert forall|j: usize| r0.contains(j) implies r@.contains(j) by {
                        let n = choose|n: int| 0 <= n < r0.len() && r0[n] == j;
                        assert(r@[n] == j);
                    }
                }
                assert forall|j: usize|
                    j < i + 1 && self.choices@[j as int] implies r@.contains(j) by {
                    if j < i {
                        assert(r0.contains(j));
                    } else {
                        assert(r@[r0.len() as int] == i);
                    }
                }
            }
            i = i + 1;
        }
        proof {
            assert forall|j: int|
                0 <= j < self.choices@.len() && self.choices@[j] implies r@.contains(
                j as usize,
            ) by {
                let ju: usize = j as usize;
                assert(ju < i && self.choices@[ju as int]);
                assert(r@.contains(ju));
            }
        }
        r
    }

    /// Lists, in ascending order, every open choice of this state whose
    /// toggle target is not recorded in `graph`.
    pub fn with_choices_not_in<TAction>(&self, graph: &BinGraph<TAction>) -> (r: Vec<usize>)
        requires
            graph.wf(),
            self.state@.len() == graph.actions@.len(),
        ensures
            self.choices@.len() <= usize::MAX,
            forall|k: int|
                0 <= k < r@.len() ==> (#[trigger] r@[k]) < self.choices@.len()
                    && self.choices@[r@[k] as int]
                    && !graph.contains_choice_spec(*self, r@[k] as int),
            forall|i: int|
                0 <= i < self.choices@.len() && (#[trigger] self.choices@[i])
                    && !graph.contains_choice_spec(*self, i) ==> r@.contains(i as usize),
            forall|k1: int, k2: int| 0 <= k1 < k2 < r@.len() ==> r@[k1] < r@[k2],
    {
        let cs = self.with_choices();
        let mut r: Vec<usize> = Vec::new();
        let mut k: usize = 0;
        while k < cs.len()
            invariant
                graph.wf(),
                self.state@.len() == graph.actions@.len(),
                k <= cs@.len(),
                forall|m: int|
                    0 <= m < cs@.len() ==> (#[trigger] cs@[m]) < self.choices@.len()
                        && self.choices@[cs@[m] as int],
                self.choices@.len() <= usize::MAX,
                forall|i: int|
                    0 <= i < self.choices@.len() && (#[trigger] self.choices@[i]) ==> cs@.contains(
                        i as usize,
                    ),
                forall|m1: int, m2: int| 0 <= m1 < m2 < cs@.len() ==> cs@[m1] < cs@[m2],
                forall|n: int|
                    0 <= n < r@.len() ==> (#[trigger] r@[n]) < self.choices@.len()
                        && self.choices@[r@[n] as int]
                        && !graph.contains_choice_spec(*self, r@[n] as int),
                forall|m: int|
                    0 <= m < k && self.choices@[cs@[m] as int]
                        && !graph.contains_choice_spec(*self, cs@[m] as int)
                        ==> r@.contains(#[trigger] cs@[m]),
                forall|n: int, m: int|
                    0 <= n < r@.len() && k <= m < cs@.len() ==> (#[trigger] r@[n]) < (
                    #[trigger] cs@[m]),
                forall|n1: int, n2: int| 0 <= n1 < n2 < r@.len() ==> r@[n1] < r@[n2],
            decreases cs@.len() - k,
        {
            let i = cs[k];
            let ghost r0 = r@;
            if !graph.contains_choice(self, i) {
                r.push(i);
                proof {
                    assert(r@[r0.len() as int] == i);
                    assert forall|j: usize| r0.contains(j) implies r@.contains(j) by {
                        let n = choose|n: int| 0 <= n < r0.len() && r0[n] == j;
                        assert(r@[n] == j);
                    }
                }
            }
            k = k + 1;
        }
        proof {
            assert forall|i: int|
                0 <= i < self.choices@.len() && self.choices@[i]
                    && !graph.contains_choice_spec(*self, i) implies r@.contains(i as usize) by {
                let iu: usize = i as usize;
                assert(cs@.contains(iu));
                let m = choose|m: int| 0 <= m < cs@.len() && cs@[m] == iu;
                assert(cs@[m] as int == i);
                assert(r@.contains(cs@[m]));
            }
        }
        r
    }
}

} // verus!
