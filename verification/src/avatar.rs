//! The avatar's `avatar.json`.

use vstd::prelude::*;
use crate::figura::FiguraFileMetadata;

verus! {

/// What `avatar.json` holds.
pub struct AvatarJson {
    pub name: String,
    pub color: String,
    pub authors: Vec<String>,
}

impl AvatarJson {
    /// The description of an avatar with metadata `meta`: same name, same
    /// color, its author as the only author. (The Figura version it was made
    /// with is not kept.)
    pub fn from_metadata(meta: FiguraFileMetadata) -> (r: Self)
        ensures
            r.name@ == meta.name@,
            r.color@ == meta.color@,
            r.authors@.len() == 1,
            r.authors@[0]@ == meta.authors@,
    {
        let mut authors: Vec<String> = Vec::new();
        authors.push(meta.authors);
        AvatarJson { name: meta.name, color: meta.color, authors }
    }
}

} // verus!
