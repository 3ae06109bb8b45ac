use vstd::prelude::*;

use crate::bingraph::BinGraph;

verus! {

/// Contains various symmetries that compactify the representation: a
/// composition of graphs into one larger dimension space.
pub enum Symmetry<TAction> {
    /// No new bits introduced, just a way to refer to the graph itself.
    NoSymmetry(BinGraph<TAction>),
    /// The sub symmetries take up the same space. This is used to define
    /// separate sets of rules that operate in the same context, as
    /// mutually exclusive alternatives.
    ExclusiveSymmetry(Vec<Symmetry<TAction>>),
    /// Sub symmetries are laid out sequentially. This is used to combine
    /// sets of rules that are completely independent.
    IndependentSymmetry(Vec<Symmetry<TAction>>),
}

impl<TAction> Symmetry<TAction> {
    /// The number of dimensions the composition occupies: a graph brings
    /// one dimension per action, exclusive alternatives share one block,
    /// and independent blocks are concatenated end to end.
    pub open spec fn dims(self) -> nat
        decreases self,
    {
        match self {
            Symmetry::NoSymmetry(g) => g.actions@.len(),
            Symmetry::ExclusiveSymmetry(children) => if children@.len() == 0 {
                0
            } else {
                children@[0].dims()
            },
            Symmetry::IndependentSymmetry(children) => Self::dims_sum(children@),
        }
    }

    /// The dimensions of a sequence of independent blocks, summed.
    pub open spec fn dims_sum(children: Seq<Symmetry<TAction>>) -> nat
        decreases children,
    {
        if children.len() == 0 {
            0
        } else {
            children[0].dims() + Self::dims_sum(children.drop_first())
        }
    }

    /// The structural invariant of a composition tree: every graph in it
    /// is well formed, and the children of an exclusive node, being
    /// alternatives over the same dimensions, all occupy equally many.
    pub open spec fn wf(self) -> bool
        decreases self,
    {
        match self {
            Symmetry::NoSymmetry(g) => g.wf(),
            Symmetry::ExclusiveSymmetry(children) => forall|k: int|
                0 <= k < children@.len() ==> (#[trigger] children@[k]).wf() && children@[k].dims()
                    == children@[0].dims(),
            Symmetry::IndependentSymmetry(children) => forall|k: int|
                0 <= k < children@.len() ==> (#[trigger] children@[k]).wf(),
        }
    }
}

} // verus!
