//! Depth-first walk over a model tree, announcing each node when it is
//! entered and again when it is left.

use vstd::prelude::*;
use crate::figura::FiguraModelPart;

verus! {

/// What the walk announces: a node is entered, or the most recently entered
/// node that is still open is left.
pub enum WalkStage<'a> {
    Enter(&'a FiguraModelPart),
    Leave,
}

/// The mathematical form of a [`WalkStage`].
pub enum Step {
    Enter(FiguraModelPart),
    Leave,
}

impl<'a> WalkStage<'a> {
    pub open spec fn step(self) -> Step {
        match self {
            WalkStage::Enter(p) => Step::Enter(*p),
            WalkStage::Leave => Step::Leave,
        }
    }
}

/// The steps of a walk over the tree rooted at `p`: enter `p`, walk each
/// child in order, leave `p`.
pub open spec fn walk_steps(p: FiguraModelPart) -> Seq<Step>
    decreases p,
{
    seq![Step::Enter(p)] + children_steps(p.chld@) + seq![Step::Leave]
}

/// The walks over each tree of `cs`, one after the other.
pub open spec fn children_steps(cs: Seq<FiguraModelPart>) -> Seq<Step>
    decreases cs,
{
    if cs.len() == 0 {
        Seq::empty()
    } else {
        walk_steps(cs[0]) + children_steps(cs.drop_first())
    }
}


/// The steps that remain of a node whose first `i` children have been
/// walked: the walks over the other children, then leaving the node.
pub open spec fn rest_of(p: FiguraModelPart, i: int) -> Seq<Step> {
    children_steps(p.chld@.skip(i)) + seq![Step::Leave]
}

/// The steps that remain of a stack of open nodes, the innermost (last)
/// first.
pub open spec fn layers_steps(ls: Seq<(&FiguraModelPart, usize)>) -> Seq<Step>
    decreases ls.len(),
{
    if ls.len() == 0 {
        Seq::empty()
    } else {
        rest_of(*ls.last().0, ls.last().1 as int) + layers_steps(ls.drop_last())
    }
}

/// A walk in progress over a model tree.
pub struct Walk<'a> {
    start: Option<&'a FiguraModelPart>,
    layers: Vec<(&'a FiguraModelPart, usize)>,
}

impl<'a> Walk<'a> {
    /// The walk's internal invariant: a walk that has not started has no
    /// open nodes, and each open node has no more children walked than it has.
    pub closed spec fn well_formed(self) -> bool {
        &&& self.start is Some ==> self.layers@.len() == 0
        &&& forall|k: int|
            0 <= k < self.layers@.len() ==> #[trigger] self.layers@[k].1 <= self.layers@[k].0.chld@.len()
    }

    /// The steps this walk has still to announce, in order.
    pub closed spec fn remaining(self) -> Seq<Step> {
        match self.start {
            Some(p) => walk_steps(*p),
            None => layers_steps(self.layers@),
        }
    }

    /// Starts a walk over the tree rooted at `item`.
    pub fn new(item: &'a FiguraModelPart) -> (w: Self)
        ensures
            w.well_formed(),
            w.remaining() == walk_steps(*item),
    {
        Walk { start: Some(item), layers: Vec::new() }
    }

    /// Announces the next step of the walk, or `None` once it is over.
    pub fn next(&mut self) -> (r: Option<WalkStage<'a>>)
        requires
            old(self).well_formed(),
        ensures
            final(self).well_formed(),
            old(self).remaining().len() == 0 ==> r is None && final(self).remaining() == old(
                self,
            ).remaining(),
            old(self).remaining().len() > 0 ==> r is Some && r->0.step() == old(self).remaining()[0]
                && final(self).remaining() == old(self).remaining().drop_first(),
    {
        let ghost before = self.remaining();
        if let Some(y) = self.start.take() {
            self.layers.push((y, 0));
            proof {
                assert(y.chld@.skip(0) =~= y.chld@);
                assert(self.layers@.drop_last() =~= Seq::<(&FiguraModelPart, usize)>::empty());
                assert(layers_steps(self.layers@.drop_last()) =~= Seq::<Step>::empty());
                assert(before == walk_steps(*y));
                assert(layers_steps(self.layers@) =~= before.drop_first());
            }
            return Some(WalkStage::Enter(y));
        }
        let popped = self.layers.pop();
        match popped {
            None => {
                None
            },
            Some(x) => {
                let (n, i) = x;
                if i < n.chld.len() {
                    let c: &'a FiguraModelPart = &n.chld[i];
                    let ghost ls = self.layers@;
                    self.layers.push((n, i + 1));
                    self.layers.push((c, 0));
                    proof {
                        let cs = n.chld@.skip(i as int);
                        assert(cs[0] == *c);
                        assert(cs.drop_first() =~= n.chld@.skip(i + 1));
                        assert(c.chld@.skip(0) =~= c.chld@);
                        assert(self.layers@.drop_last() =~= ls.push((n, (i + 1) as usize)));
                        assert(self.layers@.drop_last().drop_last() =~= ls);
                        assert(children_steps(cs) =~= walk_steps(*c) + children_steps(
                            n.chld@.skip(i + 1),
                        ));
                        assert(before =~= walk_steps(*c) + rest_of(*n, i + 1) + layers_steps(ls));
                        assert(layers_steps(self.layers@) =~= rest_of(*c, 0) + layers_steps(
                            self.layers@.drop_last(),
                        ));
                        assert(layers_steps(self.layers@.drop_last()) =~= rest_of(*n, i + 1)
                            + layers_steps(ls));
                        assert(self.remaining() =~= before.drop_first());
                    }
                    Some(WalkStage::Enter(c))
                } else {
                    proof {
                        assert(n.chld@.skip(i as int) =~= Seq::<FiguraModelPart>::empty());
                        assert(children_steps(n.chld@.skip(i as int)) =~= Seq::<Step>::empty());
                        assert(before =~= seq![Step::Leave] + layers_steps(self.layers@));
                        assert(self.remaining() =~= before.drop_first());
                    }
                    Some(WalkStage::Leave)
                }
            },
        }
    }
}

} // verus!
