//! The outline of a model: the Blockbench cubes (elements) and the folder
//! tree (outliner) built from a walk over a Figura model tree.
//!
//! The root of the tree stands for the model itself and gets no entry. Each
//! other node takes the next uuid. A cube becomes an element, and an entry
//! naming its uuid in the innermost open group (or at the top of the
//! outliner). A group becomes a new open group, placed the same way. On
//! leaving a node, the innermost open group is closed, except when the node
//! left is a cube that was entered just before.

use vstd::prelude::*;
use crate::blockbench::{
    BlockbenchModelGroup, BlockbenchModelGroupChild, BlockbenchModelPart, BlockbenchModelPartFace,
    BlockbenchModelPartFaces, ChildView, GroupView, PartView, children_view, faces_of, groups_view,
    parts_view,
};
use crate::figura::{FiguraModelBoxData, FiguraModelPart};
use crate::laws::{children_cubes, element_copies_cube, elements_copy_cubes};
use crate::walk::{Step, Walk, WalkStage, walk_steps};

verus! {

/// Where the building of an outline stands after some steps of the walk.
pub struct OutlineState {
    /// The open groups, the innermost last.
    pub stack: Seq<GroupView>,
    /// The top level of the outliner.
    pub outliner: Seq<ChildView>,
    /// The cubes, in the order they were entered.
    pub elements: Seq<PartView>,
    /// Whether the last step entered a cube.
    pub is_cube: bool,
    /// Whether the root has been entered.
    pub did_root: bool,
    /// How many uuids have been taken.
    pub next_uuid: nat,
}

pub open spec fn initial_state() -> OutlineState {
    OutlineState {
        stack: Seq::empty(),
        outliner: Seq::empty(),
        elements: Seq::empty(),
        is_cube: false,
        did_root: false,
        next_uuid: 0,
    }
}

/// Appends `c` to the innermost open group, or to the outliner when no group
/// is open.
pub open spec fn add_child(st: OutlineState, c: ChildView) -> OutlineState {
    if st.stack.len() > 0 {
        let g = st.stack.last();
        OutlineState {
            stack: st.stack.drop_last().push(GroupView { children: g.children.push(c), ..g }),
            ..st
        }
    } else {
        OutlineState { outliner: st.outliner.push(c), ..st }
    }
}

/// Closes the innermost open group, if any, placing it in the group around
/// it (or the outliner).
pub open spec fn close_group(st: OutlineState) -> OutlineState {
    if st.stack.len() > 0 {
        add_child(OutlineState { stack: st.stack.drop_last(), ..st }, ChildView::Group(st.stack.last()))
    } else {
        st
    }
}

/// The `k`-th uuid, or the empty text where there are fewer.
pub open spec fn uuid_at(uuids: Seq<Seq<char>>, k: nat) -> Seq<char> {
    if k < uuids.len() {
        uuids[k as int]
    } else {
        Seq::empty()
    }
}

/// The element made of the cube `p` with faces `d` and uuid `u`.
pub open spec fn part_of(p: FiguraModelPart, d: FiguraModelBoxData, u: Seq<char>) -> PartView {
    PartView {
        name: p.name@,
        uuid: u,
        origin: p.piv,
        from: p.f,
        to: p.t,
        rotation: p.rot,
        faces: faces_of(d),
    }
}

/// The (still empty, closed) group made of the node `p` with uuid `u`.
pub open spec fn group_of(p: FiguraModelPart, u: Seq<char>) -> GroupView {
    GroupView { name: p.name@, uuid: u, origin: p.piv, is_open: false, children: Seq::empty() }
}

/// One step of the building.
pub open spec fn outline_step(st: OutlineState, s: Step, uuids: Seq<Seq<char>>) -> OutlineState {
    match s {
        Step::Enter(p) => {
            if !st.did_root {
                OutlineState { did_root: true, ..st }
            } else {
                let u = uuid_at(uuids, st.next_uuid);
                let st1 = OutlineState { next_uuid: st.next_uuid + 1, ..st };
                match p.cube_data {
                    Some(d) => {
                        let st2 = add_child(st1, ChildView::Part(u));
                        OutlineState { is_cube: true, elements: st2.elements.push(part_of(p, d, u)), ..st2 }
                    },
                    None => OutlineState { is_cube: false, stack: st1.stack.push(group_of(p, u)), ..st1 },
                }
            }
        },
        Step::Leave => {
            if st.is_cube {
                OutlineState { is_cube: false, ..st }
            } else {
                close_group(st)
            }
        },
    }
}

/// The state after the steps `steps`, from `st`.
pub open spec fn run_steps(st: OutlineState, steps: Seq<Step>, uuids: Seq<Seq<char>>) -> OutlineState
    decreases steps.len(),
{
    if steps.len() == 0 {
        st
    } else {
        run_steps(outline_step(st, steps[0], uuids), steps.drop_first(), uuids)
    }
}

/// Closes every group that is still open.
pub open spec fn close_all(st: OutlineState) -> OutlineState
    decreases st.stack.len(),
{
    if st.stack.len() == 0 {
        st
    } else {
        close_all(close_group(st))
    }
}

/// The outline of the model tree `model`, its nodes other than the root
/// taking the uuids of `uuids` in walk order.
pub open spec fn outline_of(model: FiguraModelPart, uuids: Seq<Seq<char>>) -> OutlineState {
    close_all(run_steps(initial_state(), walk_steps(model), uuids))
}

/// A state whose open groups are `stack` and whose outliner is `outliner`,
/// all else as at the start.
pub open spec fn shape(stack: Seq<GroupView>, outliner: Seq<ChildView>) -> OutlineState {
    OutlineState { stack, outliner, ..initial_state() }
}

proof fn lemma_children_view_push(cs: Seq<BlockbenchModelGroupChild>, c: BlockbenchModelGroupChild)
    ensures
        children_view(cs.push(c)) == children_view(cs).push(c@),
{
    assert(children_view(cs.push(c)) =~= children_view(cs).push(c@));
}

/// Appends `c` to the innermost open group of `stack`, or to `outliner`.
fn add_child_exec(
    stack: &mut Vec<BlockbenchModelGroup>,
    outliner: &mut Vec<BlockbenchModelGroupChild>,
    c: BlockbenchModelGroupChild,
)
    ensures
        groups_view(final(stack)@) == add_child(
            shape(groups_view(old(stack)@), children_view(old(outliner)@)),
            c@,
        ).stack,
        children_view(final(outliner)@) == add_child(
            shape(groups_view(old(stack)@), children_view(old(outliner)@)),
            c@,
        ).outliner,
{
    let ghost c_view = c@;
    match stack.pop() {
        Some(g) => {
            let mut g = g;
            let ghost g0 = g;
            proof {
                lemma_children_view_push(g.children@, c);
            }
            g.children.push(c);
            stack.push(g);
            proof {
                assert(groups_view(old(stack)@).last() == g0@);
                assert(groups_view(stack@) =~= groups_view(old(stack)@).drop_last().push(
                    GroupView { children: g0@.children.push(c_view), ..g0@ },
                ));
            }
        },
        None => {
            proof {
                lemma_children_view_push(outliner@, c);
            }
            outliner.push(c);
        },
    }
}

/// Closes the innermost open group of `stack`, if any.
fn close_group_exec(stack: &mut Vec<BlockbenchModelGroup>, outliner: &mut Vec<BlockbenchModelGroupChild>)
    ensures
        groups_view(final(stack)@) == close_group(
            shape(groups_view(old(stack)@), children_view(old(outliner)@)),
        ).stack,
        children_view(final(outliner)@) == close_group(
            shape(groups_view(old(stack)@), children_view(old(outliner)@)),
        ).outliner,
{
    let ghost old_stack = stack@;
    match stack.pop() {
        Some(g) => {
            proof {
                assert(groups_view(stack@) =~= groups_view(old_stack).drop_last());
            }
            add_child_exec(stack, outliner, BlockbenchModelGroupChild::Group(g));
        },
        None => {},
    }
}

/// The views of a sequence of texts.
pub open spec fn strings_view(s: Seq<String>) -> Seq<Seq<char>> {
    s.map_values(|x: String| x@)
}

spec fn state_of(
    stack: Seq<BlockbenchModelGroup>,
    outliner: Seq<BlockbenchModelGroupChild>,
    elements: Seq<BlockbenchModelPart>,
    is_cube: bool,
    did_root: bool,
    next_uuid: nat,
) -> OutlineState {
    OutlineState {
        stack: groups_view(stack),
        outliner: children_view(outliner),
        elements: parts_view(elements),
        is_cube,
        did_root,
        next_uuid,
    }
}

/// The element made of the cube `p` with faces `data` and uuid `uuid`.
fn make_part(p: &FiguraModelPart, data: &FiguraModelBoxData, uuid: String) -> (r: BlockbenchModelPart)
    ensures
        r@ == part_of(*p, *data, uuid@),
{
    BlockbenchModelPart {
        name: p.name.clone(),
        uuid,
        origin: p.piv,
        from: p.f,
        to: p.t,
        rotation: p.rot,
        faces: BlockbenchModelPartFaces {
            north: BlockbenchModelPartFace::new(&data.n),
            east: BlockbenchModelPartFace::new(&data.e),
            south: BlockbenchModelPartFace::new(&data.s),
            west: BlockbenchModelPartFace::new(&data.w),
            up: BlockbenchModelPartFace::new(&data.u),
            down: BlockbenchModelPartFace::new(&data.d),
        },
    }
}

/// The elements and the outliner of the model tree `model`, its nodes other
/// than the root taking the uuids of `uuids` in walk order.
pub fn build_outline(model: &FiguraModelPart, uuids: &Vec<String>) -> (r: (
    Vec<BlockbenchModelPart>,
    Vec<BlockbenchModelGroupChild>,
))
    ensures
        parts_view(r.0@) == outline_of(*model, strings_view(uuids@)).elements,
        children_view(r.1@) == outline_of(*model, strings_view(uuids@)).outliner,
        r.0@.len() == children_cubes(model.chld@).len(),
        forall|i: int|
            0 <= i < r.0@.len() ==> element_copies_cube(#[trigger] r.0@[i]@, children_cubes(model.chld@)[i]),
{
    let ghost us = strings_view(uuids@);
    let mut stack: Vec<BlockbenchModelGroup> = Vec::new();
    let mut outliner: Vec<BlockbenchModelGroupChild> = Vec::new();
    let mut elements: Vec<BlockbenchModelPart> = Vec::new();
    let mut is_cube = false;
    let mut did_root = false;
    let mut next: usize = 0;
    let ghost mut k: nat = 0;
    let mut walk = Walk::new(model);
    proof {
        assert(groups_view(stack@) =~= Seq::<GroupView>::empty());
        assert(children_view(outliner@) =~= Seq::<ChildView>::empty());
        assert(parts_view(elements@) =~= Seq::<PartView>::empty());
        assert(state_of(stack@, outliner@, elements@, is_cube, did_root, k) == initial_state());
    }
    loop
        invariant
            walk.well_formed(),
            us == strings_view(uuids@),
            next as nat == (if k < us.len() { k } else { us.len() }),
            run_steps(state_of(stack@, outliner@, elements@, is_cube, did_root, k), walk.remaining(), us)
                == run_steps(initial_state(), walk_steps(*model), us),
        ensures
            us == strings_view(uuids@),
            walk.remaining().len() == 0,
            run_steps(state_of(stack@, outliner@, elements@, is_cube, did_root, k), walk.remaining(), us)
                == run_steps(initial_state(), walk_steps(*model), us),
        decreases walk.remaining().len(),
    {
        let ghost before = state_of(stack@, outliner@, elements@, is_cube, did_root, k);
        let ghost rem = walk.remaining();
        let stage = walk.next();
        match stage {
            None => {
                break ;
            },
            Some(stage) => {
                match stage {
                    WalkStage::Enter(p) => {
                        if !did_root {
                            did_root = true;
                        } else {
                            let u = if next < uuids.len() {
                                uuids[next].clone()
                            } else {
                                String::new()
                            };
                            if next < uuids.len() {
                                next = next + 1;
                            }
                            proof {
                                k = k + 1;
                            }
                            assert(u@ == uuid_at(us, before.next_uuid));
                            match &p.cube_data {
                                Some(data) => {
                                    is_cube = true;
                                    let ghost u_view = u@;
                                    add_child_exec(
                                        &mut stack,
                                        &mut outliner,
                                        BlockbenchModelGroupChild::Part(u.clone()),
                                    );
                                    let part = make_part(p, data, u);
                                    elements.push(part);
                                    proof {
                                        assert(parts_view(elements@) =~= before.elements.push(
                                            part_of(*p, *data, u_view),
                                        ));
                                    }
                                },
                                None => {
                                    is_cube = false;
                                    let g = BlockbenchModelGroup {
                                        name: p.name.clone(),
                                        uuid: u,
                                        origin: p.piv,
                                        is_open: false,
                                        children: Vec::new(),
                                    };
                                    proof {
                                        assert(children_view(g.children@) =~= Seq::<ChildView>::empty());
                                    }
                                    stack.push(g);
                                    proof {
                                        assert(groups_view(stack@) =~= before.stack.push(g@));
                                    }
                                },
                            }
                        }
                    },
                    WalkStage::Leave => {
                        if is_cube {
                            is_cube = false;
                        } else {
                            close_group_exec(&mut stack, &mut outliner);
                        }
                    },
                }
                proof {
                    let after = state_of(stack@, outliner@, elements@, is_cube, did_root, k);
                    assert(after == outline_step(before, rem[0], us));
                    assert(run_steps(before, rem, us) == run_steps(after, rem.drop_first(), us));
                }
            },
        }
    }
    proof {
        assert(run_steps(state_of(stack@, outliner@, elements@, is_cube, did_root, k), walk.remaining(), us)
            == state_of(stack@, outliner@, elements@, is_cube, did_root, k));
    }
    while stack.len() > 0
        invariant
            us == strings_view(uuids@),
            close_all(state_of(stack@, outliner@, elements@, is_cube, did_root, k)) == outline_of(*model, us),
        decreases stack.len(),
    {
        let ghost before = state_of(stack@, outliner@, elements@, is_cube, did_root, k);
        close_group_exec(&mut stack, &mut outliner);
        proof {
            assert(groups_view(stack@).len() == stack@.len());
            assert(state_of(stack@, outliner@, elements@, is_cube, did_root, k) == close_group(before));
        }
    }
    proof {
        elements_copy_cubes(*model, us);
        assert forall|i: int| 0 <= i < elements@.len() implies element_copies_cube(
            #[trigger] elements@[i]@,
            children_cubes(model.chld@)[i],
        ) by {
            assert(parts_view(elements@)[i] == elements@[i]@);
        }
    }
    (elements, outliner)
}

} // verus!
