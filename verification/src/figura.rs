//! The data of an exported Figura avatar, as the converter reads it.

use vstd::prelude::*;
use crate::registry::FileMap;

verus! {

/// What the avatar's `avatar.json` held.
pub struct FiguraFileMetadata {
    pub name: String,
    pub authors: String,
    pub color: String,
}

/// One face of a cube: its texture mapping (four `f32` bit patterns) and
/// the index of its texture.
#[derive(Clone, Copy)]
pub struct FiguraModelBoxDataFace {
    pub uv: [u32; 4],
    pub tex: usize,
}

/// The six faces of a cube: down, east, north, south, up, west.
#[derive(Clone, Copy)]
pub struct FiguraModelBoxData {
    pub d: FiguraModelBoxDataFace,
    pub e: FiguraModelBoxDataFace,
    pub n: FiguraModelBoxDataFace,
    pub s: FiguraModelBoxDataFace,
    pub u: FiguraModelBoxDataFace,
    pub w: FiguraModelBoxDataFace,
}

/// A node of the model tree. A node with `cube_data` is a cube, any other
/// node is a group. `f`, `t`, `piv` and `rot` are `f32` bit patterns.
pub struct FiguraModelPart {
    pub name: String,
    pub chld: Vec<FiguraModelPart>,
    pub f: [u32; 3],
    pub t: [u32; 3],
    pub piv: [u32; 3],
    pub rot: Option<[u32; 3]>,
    pub cube_data: Option<FiguraModelBoxData>,
}

/// An entry of the avatar's texture list: the texture's name.
pub struct FiguraFileTexturesData {
    pub d: String,
}

/// The avatar's textures: the image files by name, and the list of
/// textures that its models refer to by index.
pub struct FiguraFileTextures {
    pub src: FileMap,
    pub data: Vec<FiguraFileTexturesData>,
}

/// A whole exported avatar.
pub struct FiguraFile {
    pub metadata: FiguraFileMetadata,
    pub models: FiguraModelPart,
    pub scripts: FileMap,
    pub textures: FiguraFileTextures,
}

} // verus!
