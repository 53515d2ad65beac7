//! What the outline of a model tree is, stated directly over the tree.
//!
//! A cube that has children is unusual: leaving it closes the group around
//! it early, so the nodes that follow it land one level further out. Where
//! no cube has children, the outline is the tree itself: each group becomes
//! a group holding the outlines of its children, each cube an entry naming
//! its uuid and an element, and the uuids are handed out in walk order.

use vstd::prelude::*;
use crate::blockbench::{ChildView, GroupView, PartView};
use crate::figura::FiguraModelPart;
use crate::outline::{
    OutlineState, add_child, close_all, close_group, initial_state, outline_of, outline_step,
    part_of, run_steps, uuid_at,
};
use crate::walk::{Step, children_steps, walk_steps};

verus! {

/// How many nodes the tree rooted at `p` has.
pub open spec fn node_count(p: FiguraModelPart) -> nat
    decreases p,
{
    1 + children_count(p.chld@)
}

/// How many nodes the trees of `cs` have together.
pub open spec fn children_count(cs: Seq<FiguraModelPart>) -> nat
    decreases cs,
{
    if cs.len() == 0 {
        0
    } else {
        node_count(cs[0]) + children_count(cs.drop_first())
    }
}

/// Whether no cube of the tree rooted at `p` has children.
pub open spec fn is_plain(p: FiguraModelPart) -> bool
    decreases p,
{
    &&& (p.cube_data is Some ==> p.chld@.len() == 0)
    &&& all_plain(p.chld@)
}

/// Whether every tree of `cs` is plain.
pub open spec fn all_plain(cs: Seq<FiguraModelPart>) -> bool
    decreases cs,
{
    cs.len() == 0 || (is_plain(cs[0]) && all_plain(cs.drop_first()))
}

/// The outliner entry of the node `p`, which takes the `k`-th uuid while its
/// descendants take the following ones.
pub open spec fn tree_child(p: FiguraModelPart, us: Seq<Seq<char>>, k: nat) -> ChildView
    decreases p,
{
    match p.cube_data {
        Some(_) => ChildView::Part(uuid_at(us, k)),
        None => ChildView::Group(
            GroupView {
                name: p.name@,
                uuid: uuid_at(us, k),
                origin: p.piv,
                is_open: false,
                children: tree_children(p.chld@, us, k + 1),
            },
        ),
    }
}

/// The outliner entries of the trees `cs`, the first taking the `k`-th uuid.
pub open spec fn tree_children(cs: Seq<FiguraModelPart>, us: Seq<Seq<char>>, k: nat) -> Seq<ChildView>
    decreases cs,
{
    if cs.len() == 0 {
        Seq::empty()
    } else {
        seq![tree_child(cs[0], us, k)] + tree_children(cs.drop_first(), us, k + node_count(cs[0]))
    }
}

/// The elements of the cubes of the tree rooted at `p` (the root included),
/// in walk order, the root taking the `k`-th uuid.
pub open spec fn tree_parts(p: FiguraModelPart, us: Seq<Seq<char>>, k: nat) -> Seq<PartView>
    decreases p,
{
    (match p.cube_data {
        Some(d) => seq![part_of(p, d, uuid_at(us, k))],
        None => Seq::empty(),
    }) + children_parts(p.chld@, us, k + 1)
}

/// The elements of the cubes of the trees `cs`, in walk order.
pub open spec fn children_parts(cs: Seq<FiguraModelPart>, us: Seq<Seq<char>>, k: nat) -> Seq<PartView>
    decreases cs,
{
    if cs.len() == 0 {
        Seq::empty()
    } else {
        tree_parts(cs[0], us, k) + children_parts(cs.drop_first(), us, k + node_count(cs[0]))
    }
}

/// Appends each of `xs`, in order, where [`add_child`] would.
spec fn add_all(st: OutlineState, xs: Seq<ChildView>) -> OutlineState
    decreases xs.len(),
{
    if xs.len() == 0 {
        st
    } else {
        add_all(add_child(st, xs[0]), xs.drop_first())
    }
}

spec fn node_result(st: OutlineState, p: FiguraModelPart, us: Seq<Seq<char>>) -> OutlineState {
    OutlineState {
        is_cube: false,
        next_uuid: st.next_uuid + node_count(p),
        elements: st.elements + tree_parts(p, us, st.next_uuid),
        ..add_child(st, tree_child(p, us, st.next_uuid))
    }
}

spec fn children_result(st: OutlineState, cs: Seq<FiguraModelPart>, us: Seq<Seq<char>>) -> OutlineState {
    OutlineState {
        is_cube: if cs.len() == 0 { st.is_cube } else { false },
        next_uuid: st.next_uuid + children_count(cs),
        elements: st.elements + children_parts(cs, us, st.next_uuid),
        ..add_all(st, tree_children(cs, us, st.next_uuid))
    }
}

proof fn lemma_run_append(st: OutlineState, a: Seq<Step>, b: Seq<Step>, us: Seq<Seq<char>>)
    ensures
        run_steps(st, a + b, us) == run_steps(run_steps(st, a, us), b, us),
    decreases a.len(),
{
    if a.len() == 0 {
        assert(a + b =~= b);
    } else {
        assert((a + b).drop_first() =~= a.drop_first() + b);
        assert((a + b)[0] == a[0]);
        lemma_run_append(outline_step(st, a[0], us), a.drop_first(), b, us);
    }
}

proof fn lemma_run_one(st: OutlineState, x: Step, us: Seq<Seq<char>>)
    ensures
        run_steps(st, seq![x], us) == outline_step(st, x, us),
{
    assert(seq![x].drop_first() =~= Seq::<Step>::empty());
    assert(run_steps(outline_step(st, x, us), Seq::<Step>::empty(), us) == outline_step(st, x, us));
}

proof fn lemma_add_all(st: OutlineState, xs: Seq<ChildView>)
    ensures
        st.stack.len() > 0 ==> add_all(st, xs) == (OutlineState {
            stack: st.stack.drop_last().push(
                GroupView { children: st.stack.last().children + xs, ..st.stack.last() },
            ),
            ..st
        }),
        st.stack.len() == 0 ==> add_all(st, xs) == (OutlineState { outliner: st.outliner + xs, ..st }),
    decreases xs.len(),
{
    if xs.len() == 0 {
        assert(st.stack.last().children + xs =~= st.stack.last().children);
        assert(st.outliner + xs =~= st.outliner);
        if st.stack.len() > 0 {
            assert(st.stack.drop_last().push(
                GroupView { children: st.stack.last().children, ..st.stack.last() },
            ) =~= st.stack);
        }
    } else {
        let s1 = add_child(st, xs[0]);
        lemma_add_all(s1, xs.drop_first());
        if st.stack.len() > 0 {
            assert(s1.stack.drop_last() =~= st.stack.drop_last());
            assert(st.stack.last().children.push(xs[0]) + xs.drop_first() =~= st.stack.last().children
                + xs);
        } else {
            assert(st.outliner.push(xs[0]) + xs.drop_first() =~= st.outliner + xs);
        }
    }
}

proof fn lemma_plain_node(st: OutlineState, p: FiguraModelPart, us: Seq<Seq<char>>)
    requires
        st.did_root,
        is_plain(p),
    ensures
        run_steps(st, walk_steps(p), us) == node_result(st, p, us),
    decreases p,
{
    let k = st.next_uuid;
    let u = uuid_at(us, k);
    let cs = p.chld@;
    let enter = seq![Step::Enter(p)];
    let leave = seq![Step::Leave];
    assert(walk_steps(p) == enter + children_steps(cs) + leave);
    lemma_run_append(st, enter + children_steps(cs), leave, us);
    lemma_run_append(st, enter, children_steps(cs), us);
    let s1 = outline_step(st, Step::Enter(p), us);
    lemma_run_one(st, Step::Enter(p), us);
    assert(run_steps(st, enter, us) == s1) by {
        assert(enter.drop_first() =~= Seq::<Step>::empty());
    }
    lemma_plain_children(s1, cs, us);
    let s2 = run_steps(s1, children_steps(cs), us);
    let s3 = outline_step(s2, Step::Leave, us);
    lemma_run_one(s2, Step::Leave, us);
    assert(run_steps(s2, leave, us) == s3) by {
        assert(leave.drop_first() =~= Seq::<Step>::empty());
    }
    match p.cube_data {
        Some(d) => {
            assert(cs.len() == 0);
            assert(tree_parts(p, us, k) =~= seq![part_of(p, d, u)]) by {
                assert(children_parts(cs, us, k + 1) =~= Seq::<PartView>::empty());
            }
            assert(children_count(cs) == 0);
            lemma_add_all(s1, Seq::empty());
            assert(tree_children(cs, us, s1.next_uuid) =~= Seq::<ChildView>::empty());
            assert(s1.elements + Seq::<PartView>::empty() =~= s1.elements);
            assert(st.elements.push(part_of(p, d, u)) =~= st.elements + tree_parts(p, us, k));
            assert(s3 == node_result(st, p, us));
        },
        None => {
            let tc = tree_children(cs, us, k + 1);
            lemma_add_all(s1, tc);
            assert(s1.stack.last().children + tc =~= tc);
            assert(s1.stack.drop_last() =~= st.stack);
            assert(tree_parts(p, us, k) =~= Seq::<PartView>::empty() + children_parts(cs, us, k + 1));
            let g = GroupView { children: tc, ..crate::outline::group_of(p, u) };
            assert(s2.stack =~= st.stack.push(g));
            assert(s2.stack.drop_last() =~= st.stack);
            assert(s3 == node_result(st, p, us));
        },
    }
}

proof fn lemma_plain_children(st: OutlineState, cs: Seq<FiguraModelPart>, us: Seq<Seq<char>>)
    requires
        st.did_root,
        all_plain(cs),
    ensures
        run_steps(st, children_steps(cs), us) == children_result(st, cs, us),
    decreases cs,
{
    let k = st.next_uuid;
    if cs.len() == 0 {
        assert(children_steps(cs) =~= Seq::<Step>::empty());
        assert(tree_children(cs, us, k) =~= Seq::<ChildView>::empty());
        assert(children_parts(cs, us, k) =~= Seq::<PartView>::empty());
        assert(st.elements + Seq::<PartView>::empty() =~= st.elements);
        assert(children_result(st, cs, us) == st);
    } else {
        let c0 = cs[0];
        let rest = cs.drop_first();
        lemma_run_append(st, walk_steps(c0), children_steps(rest), us);
        lemma_plain_node(st, c0, us);
        let n0 = node_result(st, c0, us);
        lemma_plain_children(n0, rest, us);
        let k0 = k + node_count(c0);
        let x0 = tree_child(c0, us, k);
        let xs = tree_children(rest, us, k0);
        assert(tree_children(cs, us, k) == seq![x0] + xs);
        lemma_add_all(n0, xs);
        lemma_add_all(st, seq![x0] + xs);
        if st.stack.len() > 0 {
            assert(st.stack.last().children.push(x0) + xs =~= st.stack.last().children + (seq![x0]
                + xs));
            assert(n0.stack.drop_last() =~= st.stack.drop_last());
        } else {
            assert(st.outliner.push(x0) + xs =~= st.outliner + (seq![x0] + xs));
        }
        assert(st.elements + tree_parts(c0, us, k) + children_parts(rest, us, k0) =~= st.elements
            + children_parts(cs, us, k));
        assert(children_result(n0, rest, us) == children_result(st, cs, us));
    }
}

proof fn lemma_node_parts(st: OutlineState, p: FiguraModelPart, us: Seq<Seq<char>>)
    requires
        st.did_root,
    ensures
        run_steps(st, walk_steps(p), us).did_root,
        run_steps(st, walk_steps(p), us).next_uuid == st.next_uuid + node_count(p),
        run_steps(st, walk_steps(p), us).elements == st.elements + tree_parts(p, us, st.next_uuid),
    decreases p,
{
    let k = st.next_uuid;
    let cs = p.chld@;
    let enter = seq![Step::Enter(p)];
    let leave = seq![Step::Leave];
    assert(walk_steps(p) == enter + children_steps(cs) + leave);
    lemma_run_append(st, enter + children_steps(cs), leave, us);
    lemma_run_append(st, enter, children_steps(cs), us);
    lemma_run_one(st, Step::Enter(p), us);
    let s1 = outline_step(st, Step::Enter(p), us);
    lemma_children_parts(s1, cs, us);
    let s2 = run_steps(s1, children_steps(cs), us);
    lemma_run_one(s2, Step::Leave, us);
    match p.cube_data {
        Some(d) => {
            assert(st.elements.push(part_of(p, d, uuid_at(us, k))) + children_parts(cs, us, k + 1)
                =~= st.elements + tree_parts(p, us, k));
        },
        None => {
            assert(st.elements + children_parts(cs, us, k + 1) =~= st.elements + tree_parts(p, us, k));
        },
    }
}

proof fn lemma_children_parts(st: OutlineState, cs: Seq<FiguraModelPart>, us: Seq<Seq<char>>)
    requires
        st.did_root,
    ensures
        run_steps(st, children_steps(cs), us).did_root,
        run_steps(st, children_steps(cs), us).next_uuid == st.next_uuid + children_count(cs),
        run_steps(st, children_steps(cs), us).elements == st.elements + children_parts(
            cs,
            us,
            st.next_uuid,
        ),
    decreases cs,
{
    let k = st.next_uuid;
    if cs.len() == 0 {
        assert(children_steps(cs) =~= Seq::<Step>::empty());
        assert(st.elements + children_parts(cs, us, k) =~= st.elements);
    } else {
        let c0 = cs[0];
        let rest = cs.drop_first();
        lemma_run_append(st, walk_steps(c0), children_steps(rest), us);
        lemma_node_parts(st, c0, us);
        let n0 = run_steps(st, walk_steps(c0), us);
        lemma_children_parts(n0, rest, us);
        assert(st.elements + tree_parts(c0, us, k) + children_parts(rest, us, k + node_count(c0))
            =~= st.elements + children_parts(cs, us, k));
    }
}

/// Whatever the tree, every cube below the root becomes exactly one element,
/// in walk order, and every node below the root takes one uuid.
pub proof fn outline_elements(model: FiguraModelPart, us: Seq<Seq<char>>)
    ensures
        outline_of(model, us).elements == children_parts(model.chld@, us, 0),
        outline_of(model, us).next_uuid == children_count(model.chld@),
{
    let cs = model.chld@;
    let enter = seq![Step::Enter(model)];
    let leave = seq![Step::Leave];
    let st0 = initial_state();
    assert(walk_steps(model) == enter + children_steps(cs) + leave);
    lemma_run_append(st0, enter + children_steps(cs), leave, us);
    lemma_run_append(st0, enter, children_steps(cs), us);
    lemma_run_one(st0, Step::Enter(model), us);
    let s1 = outline_step(st0, Step::Enter(model), us);
    lemma_children_parts(s1, cs, us);
    let s2 = run_steps(s1, children_steps(cs), us);
    lemma_run_one(s2, Step::Leave, us);
    lemma_close_all_keeps(outline_step(s2, Step::Leave, us));
    assert(Seq::<PartView>::empty() + children_parts(cs, us, 0) =~= children_parts(cs, us, 0));
}

proof fn lemma_close_all_keeps(st: OutlineState)
    ensures
        close_all(st).elements == st.elements,
        close_all(st).next_uuid == st.next_uuid,
        close_all(st).stack.len() == 0,
    decreases st.stack.len(),
{
    if st.stack.len() > 0 {
        lemma_close_all_keeps(close_group(st));
    }
}

/// Where no cube of a model has children, its outline is the tree itself:
/// the outliner holds the outliner entries of the root's children, each group
/// holding those of its own children, and the elements are the cubes in walk
/// order, every node below the root taking the next uuid.
pub proof fn outline_of_plain_tree(model: FiguraModelPart, us: Seq<Seq<char>>)
    requires
        all_plain(model.chld@),
    ensures
        outline_of(model, us).outliner == tree_children(model.chld@, us, 0),
        outline_of(model, us).elements == children_parts(model.chld@, us, 0),
        outline_of(model, us).stack.len() == 0,
{
    let cs = model.chld@;
    let enter = seq![Step::Enter(model)];
    let leave = seq![Step::Leave];
    let st0 = initial_state();
    assert(walk_steps(model) == enter + children_steps(cs) + leave);
    lemma_run_append(st0, enter + children_steps(cs), leave, us);
    lemma_run_append(st0, enter, children_steps(cs), us);
    let s1 = outline_step(st0, Step::Enter(model), us);
    lemma_run_one(st0, Step::Enter(model), us);
    assert(run_steps(st0, enter, us) == s1) by {
        assert(enter.drop_first() =~= Seq::<Step>::empty());
    }
    lemma_plain_children(s1, cs, us);
    let s2 = run_steps(s1, children_steps(cs), us);
    lemma_add_all(s1, tree_children(cs, us, 0));
    let s3 = outline_step(s2, Step::Leave, us);
    lemma_run_one(s2, Step::Leave, us);
    assert(run_steps(s2, leave, us) == s3) by {
        assert(leave.drop_first() =~= Seq::<Step>::empty());
    }
    assert(s3 == s2);
    assert(close_all(s3) == s3);
    assert(Seq::<ChildView>::empty() + tree_children(cs, us, 0) =~= tree_children(cs, us, 0));
    assert(Seq::<PartView>::empty() + children_parts(cs, us, 0) =~= children_parts(cs, us, 0));
}

} // verus!

verus! {

/// How many steps of `s` enter a node.
pub open spec fn enter_count(s: Seq<Step>) -> nat
    decreases s.len(),
{
    if s.len() == 0 {
        0
    } else {
        (if s[0] is Enter { 1nat } else { 0nat }) + enter_count(s.drop_first())
    }
}

proof fn lemma_enter_count_append(a: Seq<Step>, b: Seq<Step>)
    ensures
        enter_count(a + b) == enter_count(a) + enter_count(b),
    decreases a.len(),
{
    if a.len() == 0 {
        assert(a + b =~= b);
    } else {
        assert((a + b).drop_first() =~= a.drop_first() + b);
        lemma_enter_count_append(a.drop_first(), b);
    }
}

proof fn lemma_walk_counts(p: FiguraModelPart)
    ensures
        enter_count(walk_steps(p)) == node_count(p),
        walk_steps(p).len() == 2 * node_count(p),
    decreases p,
{
    let enter = seq![Step::Enter(p)];
    let leave = seq![Step::Leave];
    let inner = children_steps(p.chld@);
    lemma_children_counts(p.chld@);
    lemma_enter_count_append(enter + inner, leave);
    lemma_enter_count_append(enter, inner);
    assert(enter_count(enter) == 1) by {
        assert(enter.drop_first() =~= Seq::<Step>::empty());
        assert(enter_count(Seq::<Step>::empty()) == 0);
    }
    assert(enter_count(leave) == 0) by {
        assert(leave.drop_first() =~= Seq::<Step>::empty());
        assert(enter_count(Seq::<Step>::empty()) == 0);
    }
}

proof fn lemma_children_counts(cs: Seq<FiguraModelPart>)
    ensures
        enter_count(children_steps(cs)) == children_count(cs),
        children_steps(cs).len() == 2 * children_count(cs),
    decreases cs,
{
    if cs.len() > 0 {
        lemma_walk_counts(cs[0]);
        lemma_children_counts(cs.drop_first());
        lemma_enter_count_append(walk_steps(cs[0]), children_steps(cs.drop_first()));
    }
}

/// A walk over a tree announces each of its nodes once on entering it and
/// once on leaving it: as many entering steps as nodes, twice as many steps
/// in all.
pub proof fn walk_visits_each_node_once(p: FiguraModelPart)
    ensures
        enter_count(walk_steps(p)) == node_count(p),
        walk_steps(p).len() == 2 * node_count(p),
{
    lemma_walk_counts(p);
}

/// The steps that enter a node below the root: all but the first entering
/// step of a walk.
pub proof fn walk_enters_below_root(p: FiguraModelPart)
    ensures
        enter_count(walk_steps(p)) == 1 + children_count(p.chld@),
        walk_steps(p)[0] == Step::Enter(p),
{
    lemma_walk_counts(p);
}

} // verus!

verus! {

/// How many nodes are open after the steps `s`: the entering steps less
/// the leaving steps.
pub open spec fn open_count(s: Seq<Step>) -> int
    decreases s.len(),
{
    if s.len() == 0 {
        0
    } else {
        (if s[0] is Enter { 1int } else { -1int }) + open_count(s.drop_first())
    }
}

/// The depth of the node that each step of a walk over `p` enters or leaves,
/// `p` being at depth `d`: a node's children lie one deeper than it.
pub open spec fn walk_depths(p: FiguraModelPart, d: int) -> Seq<int>
    decreases p,
{
    seq![d] + children_depths(p.chld@, d + 1) + seq![d]
}

/// The depths of the steps of the walks over the trees `cs`, all at depth `d`.
pub open spec fn children_depths(cs: Seq<FiguraModelPart>, d: int) -> Seq<int>
    decreases cs,
{
    if cs.len() == 0 {
        Seq::empty()
    } else {
        walk_depths(cs[0], d) + children_depths(cs.drop_first(), d)
    }
}

/// How many nodes are open just after a step of the node at depth `depth`:
/// after entering it, itself and its ancestors; after leaving it, its
/// ancestors.
pub open spec fn open_after(s: Step, depth: int) -> int {
    if s is Enter {
        depth + 1
    } else {
        depth
    }
}

proof fn lemma_open_append(a: Seq<Step>, b: Seq<Step>)
    ensures
        open_count(a + b) == open_count(a) + open_count(b),
    decreases a.len(),
{
    if a.len() == 0 {
        assert(a + b =~= b);
    } else {
        assert((a + b).drop_first() =~= a.drop_first() + b);
        lemma_open_append(a.drop_first(), b);
    }
}

proof fn lemma_open_one(x: Step)
    ensures
        open_count(seq![x]) == (if x is Enter { 1int } else { -1int }),
{
    assert(seq![x].drop_first() =~= Seq::<Step>::empty());
    assert(open_count(Seq::<Step>::empty()) == 0);
}

proof fn lemma_node_depths(p: FiguraModelPart, d: int)
    ensures
        walk_depths(p, d).len() == walk_steps(p).len(),
        open_count(walk_steps(p)) == 0,
        forall|k: int|
            0 <= k < walk_steps(p).len() ==> open_count(#[trigger] walk_steps(p).take(k + 1)) + d
                == open_after(walk_steps(p)[k], walk_depths(p, d)[k]),
        forall|k: int| 0 < k < walk_steps(p).len() - 1 ==> #[trigger] walk_depths(p, d)[k] >= d + 1,
    decreases p,
{
    let cs = p.chld@;
    let inner = children_steps(cs);
    let di = children_depths(cs, d + 1);
    let enter = seq![Step::Enter(p)];
    let leave = seq![Step::Leave];
    let s = walk_steps(p);
    let ds = walk_depths(p, d);
    lemma_children_depths(cs, d + 1);
    assert(s == enter + inner + leave);
    assert(ds == seq![d] + di + seq![d]);
    let m = inner.len() as int;
    lemma_open_one(Step::Enter(p));
    lemma_open_one(Step::Leave);
    lemma_open_append(enter, inner);
    lemma_open_append(enter + inner, leave);
    assert forall|k: int| 0 <= k < s.len() implies open_count(#[trigger] s.take(k + 1)) + d
        == open_after(s[k], ds[k]) by {
        if k == 0 {
            assert(s.take(1) =~= enter);
        } else if k <= m {
            assert(s.take(k + 1) =~= enter + inner.take(k));
            lemma_open_append(enter, inner.take(k));
            assert(s[k] == inner[k - 1]);
            assert(ds[k] == di[k - 1]);
            assert(inner.take((k - 1) + 1) == inner.take(k));
        } else {
            assert(s.take(k + 1) =~= s);
            assert(s[k] == Step::Leave);
            assert(ds[k] == d);
        }
    }
    assert forall|k: int| 0 < k < s.len() - 1 implies #[trigger] ds[k] >= d + 1 by {
        assert(ds[k] == di[k - 1]);
    }
}

proof fn lemma_children_depths(cs: Seq<FiguraModelPart>, d: int)
    ensures
        children_depths(cs, d).len() == children_steps(cs).len(),
        open_count(children_steps(cs)) == 0,
        forall|k: int|
            0 <= k < children_steps(cs).len() ==> open_count(
                #[trigger] children_steps(cs).take(k + 1),
            ) + d == open_after(children_steps(cs)[k], children_depths(cs, d)[k]),
        forall|k: int| 0 <= k < children_steps(cs).len() ==> #[trigger] children_depths(cs, d)[k] >= d,
    decreases cs,
{
    if cs.len() == 0 {
        assert(children_steps(cs) =~= Seq::<Step>::empty());
        assert(open_count(Seq::<Step>::empty()) == 0);
    } else {
        let c0 = cs[0];
        let rest = cs.drop_first();
        let w = walk_steps(c0);
        let dw = walk_depths(c0, d);
        let r = children_steps(rest);
        let dr = children_depths(rest, d);
        let s = children_steps(cs);
        let ds = children_depths(cs, d);
        lemma_node_depths(c0, d);
        lemma_children_depths(rest, d);
        assert(s == w + r);
        assert(ds == dw + dr);
        lemma_open_append(w, r);
        let n = w.len() as int;
        assert forall|k: int| 0 <= k < s.len() implies open_count(#[trigger] s.take(k + 1)) + d
            == open_after(s[k], ds[k]) by {
            if k < n {
                assert(s.take(k + 1) =~= w.take(k + 1));
                assert(s[k] == w[k]);
                assert(ds[k] == dw[k]);
                if 0 < k < n - 1 {
                    assert(dw[k] >= d + 1);
                }
                if k == 0 {
                    assert(w[0] == Step::Enter(c0));
                    assert(dw[0] == d);
                }
                if k == n - 1 {
                    assert(w.take(k + 1) =~= w);
                    assert(w[k] == Step::Leave);
                    assert(dw[k] == d);
                }
            } else {
                assert(s.take(k + 1) =~= w + r.take((k - n) + 1));
                lemma_open_append(w, r.take((k - n) + 1));
                assert(s[k] == r[k - n]);
                assert(ds[k] == dr[k - n]);
            }
        }
        assert forall|k: int| 0 <= k < s.len() implies #[trigger] ds[k] >= d by {
            if k < n {
                assert(ds[k] == dw[k]);
                if 0 < k < n - 1 {
                    assert(dw[k] >= d + 1);
                }
            } else {
                assert(ds[k] == dr[k - n]);
            }
        }
    }
}

/// The depth law of a walk: just after a step, the nodes open are the
/// node entered and its ancestors (its depth plus one), or, after a leaving
/// step, the ancestors of the node left (its depth), the root being at depth
/// zero.
pub proof fn walk_open_nodes_follow_depth(p: FiguraModelPart)
    ensures
        walk_depths(p, 0).len() == walk_steps(p).len(),
        forall|k: int|
            0 <= k < walk_steps(p).len() ==> open_count(#[trigger] walk_steps(p).take(k + 1))
                == open_after(walk_steps(p)[k], walk_depths(p, 0)[k]),
{
    lemma_node_depths(p, 0);
}

/// The balance law of a walk: every proper prefix of it leaves fewer nodes
/// than it enters (nothing is left that was not entered, and the root stays
/// open until the last step), and the whole walk enters and leaves each of
/// its nodes once.
pub proof fn walk_prefixes_are_balanced(p: FiguraModelPart)
    ensures
        forall|j: int| 1 <= j < walk_steps(p).len() ==> #[trigger] open_count(walk_steps(p).take(j)) >= 1,
        open_count(walk_steps(p)) == 0,
        enter_count(walk_steps(p)) == node_count(p),
        walk_steps(p).len() == 2 * node_count(p),
{
    lemma_node_depths(p, 0);
    lemma_walk_counts(p);
    let s = walk_steps(p);
    let ds = walk_depths(p, 0);
    assert forall|j: int| 1 <= j < s.len() implies #[trigger] open_count(s.take(j)) >= 1 by {
        let k = j - 1;
        assert(s.take(k + 1) == s.take(j));
        if k == 0 {
            assert(s[0] == Step::Enter(p));
            assert(ds[0] == 0);
        } else {
            assert(ds[k] >= 1);
        }
    }
}

} // verus!

verus! {

/// The cubes of the tree rooted at `p` (the root included), in walk order.
pub open spec fn tree_cubes(p: FiguraModelPart) -> Seq<FiguraModelPart>
    decreases p,
{
    (if p.cube_data is Some {
        seq![p]
    } else {
        Seq::empty()
    }) + children_cubes(p.chld@)
}

/// The cubes of the trees `cs`, in walk order.
pub open spec fn children_cubes(cs: Seq<FiguraModelPart>) -> Seq<FiguraModelPart>
    decreases cs,
{
    if cs.len() == 0 {
        Seq::empty()
    } else {
        tree_cubes(cs[0]) + children_cubes(cs.drop_first())
    }
}

/// Whether the element `e` carries the cube `c`: its name, its pivot as
/// origin, its `f` and `t` as from and to, its rotation, and each face of
/// the cube on the same side (north from `n`, east from `e`, south from `s`,
/// west from `w`, up from `u`, down from `d`), mapping and texture alike.
pub open spec fn element_copies_cube(e: PartView, c: FiguraModelPart) -> bool {
    let d = c.cube_data->0;
    &&& c.cube_data is Some
    &&& e.name == c.name@
    &&& e.origin == c.piv
    &&& e.from == c.f
    &&& e.to == c.t
    &&& e.rotation == c.rot
    &&& e.faces.north.uv == d.n.uv && e.faces.north.texture == d.n.tex
    &&& e.faces.east.uv == d.e.uv && e.faces.east.texture == d.e.tex
    &&& e.faces.south.uv == d.s.uv && e.faces.south.texture == d.s.tex
    &&& e.faces.west.uv == d.w.uv && e.faces.west.texture == d.w.tex
    &&& e.faces.up.uv == d.u.uv && e.faces.up.texture == d.u.tex
    &&& e.faces.down.uv == d.d.uv && e.faces.down.texture == d.d.tex
}

proof fn lemma_concat_copies(a: Seq<PartView>, b: Seq<PartView>, ca: Seq<FiguraModelPart>, cb: Seq<FiguraModelPart>)
    requires
        a.len() == ca.len(),
        b.len() == cb.len(),
        forall|i: int| 0 <= i < a.len() ==> element_copies_cube(#[trigger] a[i], ca[i]),
        forall|i: int| 0 <= i < b.len() ==> element_copies_cube(#[trigger] b[i], cb[i]),
    ensures
        (a + b).len() == (ca + cb).len(),
        forall|i: int| 0 <= i < (a + b).len() ==> element_copies_cube(#[trigger] (a + b)[i], (ca + cb)[i]),
{
    assert forall|i: int| 0 <= i < (a + b).len() implies element_copies_cube(#[trigger] (a + b)[i], (ca + cb)[i]) by {
        if i < a.len() {
            assert((a + b)[i] == a[i]);
            assert((ca + cb)[i] == ca[i]);
        } else {
            assert((a + b)[i] == b[i - a.len()]);
            assert((ca + cb)[i] == cb[i - a.len()]);
        }
    }
}

proof fn lemma_tree_parts_copy(p: FiguraModelPart, us: Seq<Seq<char>>, k: nat)
    ensures
        tree_parts(p, us, k).len() == tree_cubes(p).len(),
        forall|i: int|
            0 <= i < tree_parts(p, us, k).len() ==> element_copies_cube(#[trigger] tree_parts(p, us, k)[i], tree_cubes(p)[i]),
    decreases p,
{
    lemma_children_parts_copy(p.chld@, us, k + 1);
    match p.cube_data {
        Some(d) => {
            let head = seq![part_of(p, d, uuid_at(us, k))];
            assert(element_copies_cube(head[0], seq![p][0]));
            lemma_concat_copies(head, children_parts(p.chld@, us, k + 1), seq![p], children_cubes(p.chld@));
        },
        None => {
            lemma_concat_copies(
                Seq::empty(),
                children_parts(p.chld@, us, k + 1),
                Seq::empty(),
                children_cubes(p.chld@),
            );
        },
    }
}

proof fn lemma_children_parts_copy(cs: Seq<FiguraModelPart>, us: Seq<Seq<char>>, k: nat)
    ensures
        children_parts(cs, us, k).len() == children_cubes(cs).len(),
        forall|i: int|
            0 <= i < children_parts(cs, us, k).len() ==> element_copies_cube(
                #[trigger] children_parts(cs, us, k)[i],
                children_cubes(cs)[i],
            ),
    decreases cs,
{
    if cs.len() > 0 {
        lemma_tree_parts_copy(cs[0], us, k);
        lemma_children_parts_copy(cs.drop_first(), us, k + node_count(cs[0]));
        lemma_concat_copies(
            tree_parts(cs[0], us, k),
            children_parts(cs.drop_first(), us, k + node_count(cs[0])),
            tree_cubes(cs[0]),
            children_cubes(cs.drop_first()),
        );
    }
}

/// Whatever the tree, the `i`-th element of its outline carries the `i`-th
/// cube below the root, in walk order: the same name, the pivot as origin,
/// `f` and `t` as from and to, the same rotation, and each face copied from
/// the cube's face on the same side.
pub proof fn elements_copy_cubes(model: FiguraModelPart, us: Seq<Seq<char>>)
    ensures
        outline_of(model, us).elements.len() == children_cubes(model.chld@).len(),
        forall|i: int|
            0 <= i < outline_of(model, us).elements.len() ==> element_copies_cube(
                #[trigger] outline_of(model, us).elements[i],
                children_cubes(model.chld@)[i],
            ),
{
    outline_elements(model, us);
    lemma_children_parts_copy(model.chld@, us, 0);
}

} // verus!
