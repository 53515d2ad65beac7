//! Turns an exported Figura avatar (`.moon`) back into editable sources:
//! the avatar description, the Lua scripts, the textures and one Blockbench
//! model per top-level model part.
//!
//! Floating-point values of the avatar (positions, pivots, rotations and
//! texture mappings) are carried through the library as their IEEE-754 bit
//! patterns (`f32::to_bits`): the library only moves them, it never computes
//! with them.

pub mod figura;
pub mod walk;
pub mod blockbench;
pub mod outline;
pub mod laws;
pub mod registry;
pub mod names;
pub mod textures;
pub mod convert;
pub mod uuids;
pub mod avatar;
pub mod args;
