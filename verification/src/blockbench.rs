//! The Blockbench model (`.bbmodel`) that the converter writes, and its
//! mathematical view.

use vstd::prelude::*;
use crate::figura::{FiguraModelBoxData, FiguraModelBoxDataFace};

verus! {

/// The `meta` object of a Blockbench model.
pub struct BlockbenchModelMeta {
    pub format_version: String,
    pub model_format: String,
}

impl Default for BlockbenchModelMeta {
    /// Format version `4.9`, model format `free`.
    fn default() -> (r: Self)
        ensures
            r.format_version@ == "4.9"@,
            r.model_format@ == "free"@,
    {
        BlockbenchModelMeta {
            format_version: String::from_str("4.9"),
            model_format: String::from_str("free"),
        }
    }
}

/// One face of a Blockbench cube: texture mapping (`f32` bit patterns) and
/// texture index.
#[derive(Clone, Copy)]
pub struct BlockbenchModelPartFace {
    pub uv: [u32; 4],
    pub texture: usize,
}

impl BlockbenchModelPartFace {
    /// The Blockbench face for a Figura face: same mapping, same texture.
    pub fn new(v: &FiguraModelBoxDataFace) -> (r: Self)
        ensures
            r == face_of(*v),
    {
        BlockbenchModelPartFace { uv: v.uv, texture: v.tex }
    }
}

pub open spec fn face_of(v: FiguraModelBoxDataFace) -> BlockbenchModelPartFace {
    BlockbenchModelPartFace { uv: v.uv, texture: v.tex }
}

/// The six faces of a Blockbench cube.
#[derive(Clone, Copy)]
pub struct BlockbenchModelPartFaces {
    pub north: BlockbenchModelPartFace,
    pub east: BlockbenchModelPartFace,
    pub south: BlockbenchModelPartFace,
    pub west: BlockbenchModelPartFace,
    pub up: BlockbenchModelPartFace,
    pub down: BlockbenchModelPartFace,
}

/// The Blockbench faces of a Figura cube: north from `n`, east from `e`,
/// south from `s`, west from `w`, up from `u`, down from `d`.
pub open spec fn faces_of(d: FiguraModelBoxData) -> BlockbenchModelPartFaces {
    BlockbenchModelPartFaces {
        north: face_of(d.n),
        east: face_of(d.e),
        south: face_of(d.s),
        west: face_of(d.w),
        up: face_of(d.u),
        down: face_of(d.d),
    }
}

/// A cube of a Blockbench model (an element). `origin`, `from`, `to` and
/// `rotation` are `f32` bit patterns.
pub struct BlockbenchModelPart {
    pub name: String,
    pub uuid: String,
    pub origin: [u32; 3],
    pub from: [u32; 3],
    pub to: [u32; 3],
    pub rotation: Option<[u32; 3]>,
    pub faces: BlockbenchModelPartFaces,
}

/// An entry of the outliner: a cube, named by its uuid, or a group.
pub enum BlockbenchModelGroupChild {
    Part(String),
    Group(BlockbenchModelGroup),
}

/// A group (folder) of the outliner. `origin` holds `f32` bit patterns.
pub struct BlockbenchModelGroup {
    pub name: String,
    pub uuid: String,
    pub origin: [u32; 3],
    pub is_open: bool,
    pub children: Vec<BlockbenchModelGroupChild>,
}

/// A texture of a Blockbench model.
pub struct BlockbenchModelTexture {
    pub uuid: String,
    pub name: String,
    pub source: String,
    pub folder: String,
    pub id: String,
    pub relative_path: String,
    pub path: String,
    pub width: u32,
    pub uv_width: u32,
    pub height: u32,
    pub uv_height: u32,
}

/// A whole Blockbench model.
pub struct BlockbenchModel {
    pub meta: BlockbenchModelMeta,
    pub elements: Vec<BlockbenchModelPart>,
    pub outliner: Vec<BlockbenchModelGroupChild>,
    pub textures: Vec<BlockbenchModelTexture>,
}

/// The view of a [`BlockbenchModelPart`].
pub struct PartView {
    pub name: Seq<char>,
    pub uuid: Seq<char>,
    pub origin: [u32; 3],
    pub from: [u32; 3],
    pub to: [u32; 3],
    pub rotation: Option<[u32; 3]>,
    pub faces: BlockbenchModelPartFaces,
}

/// The view of a [`BlockbenchModelGroup`].
pub struct GroupView {
    pub name: Seq<char>,
    pub uuid: Seq<char>,
    pub origin: [u32; 3],
    pub is_open: bool,
    pub children: Seq<ChildView>,
}

/// The view of a [`BlockbenchModelGroupChild`].
pub enum ChildView {
    Part(Seq<char>),
    Group(GroupView),
}

/// The view of a [`BlockbenchModelTexture`].
pub struct TextureView {
    pub uuid: Seq<char>,
    pub name: Seq<char>,
    pub source: Seq<char>,
    pub folder: Seq<char>,
    pub id: Seq<char>,
    pub relative_path: Seq<char>,
    pub path: Seq<char>,
    pub width: u32,
    pub uv_width: u32,
    pub height: u32,
    pub uv_height: u32,
}

impl View for BlockbenchModelPart {
    type V = PartView;

    open spec fn view(&self) -> PartView {
        PartView {
            name: self.name@,
            uuid: self.uuid@,
            origin: self.origin,
            from: self.from,
            to: self.to,
            rotation: self.rotation,
            faces: self.faces,
        }
    }
}

pub open spec fn group_view(g: BlockbenchModelGroup) -> GroupView
    decreases g,
{
    GroupView {
        name: g.name@,
        uuid: g.uuid@,
        origin: g.origin,
        is_open: g.is_open,
        children: children_view(g.children@),
    }
}

pub open spec fn children_view(cs: Seq<BlockbenchModelGroupChild>) -> Seq<ChildView>
    decreases cs,
{
    Seq::new(
        cs.len(),
        |i: int|
            if 0 <= i < cs.len() {
                child_view(cs[i])
            } else {
                ChildView::Part(Seq::empty())
            },
    )
}

pub open spec fn child_view(c: BlockbenchModelGroupChild) -> ChildView
    decreases c,
{
    match c {
        BlockbenchModelGroupChild::Part(u) => ChildView::Part(u@),
        BlockbenchModelGroupChild::Group(g) => ChildView::Group(group_view(g)),
    }
}

impl View for BlockbenchModelGroup {
    type V = GroupView;

    open spec fn view(&self) -> GroupView {
        group_view(*self)
    }
}

impl View for BlockbenchModelGroupChild {
    type V = ChildView;

    open spec fn view(&self) -> ChildView {
        child_view(*self)
    }
}

impl View for BlockbenchModelTexture {
    type V = TextureView;

    open spec fn view(&self) -> TextureView {
        TextureView {
            uuid: self.uuid@,
            name: self.name@,
            source: self.source@,
            folder: self.folder@,
            id: self.id@,
            relative_path: self.relative_path@,
            path: self.path@,
            width: self.width,
            uv_width: self.uv_width,
            height: self.height,
            uv_height: self.uv_height,
        }
    }
}

/// The views of a sequence of cubes.
pub open spec fn parts_view(ps: Seq<BlockbenchModelPart>) -> Seq<PartView> {
    ps.map_values(|p: BlockbenchModelPart| p@)
}

/// The views of a sequence of groups.
pub open spec fn groups_view(gs: Seq<BlockbenchModelGroup>) -> Seq<GroupView> {
    gs.map_values(|g: BlockbenchModelGroup| g@)
}

/// The views of a sequence of textures.
pub open spec fn textures_view(ts: Seq<BlockbenchModelTexture>) -> Seq<TextureView> {
    ts.map_values(|t: BlockbenchModelTexture| t@)
}

} // verus!
