//! One Blockbench model per top-level part of the avatar.

use vstd::prelude::*;
use crate::blockbench::{BlockbenchModel, BlockbenchModelMeta, children_view, parts_view, textures_view};
use crate::figura::{FiguraFileTextures, FiguraModelPart};
use crate::outline::{build_outline, outline_of, strings_view};
use crate::textures::{TextureError, build_textures, opt_strings_view, textures_result_ok};
use crate::laws::{children_cubes, element_copies_cube, children_count, enter_count, node_count, walk_visits_each_node_once};
use crate::uuids::{counter_uuid, counter_uuid_is_v4, counter_uuid_string, counter_uuids_pigeonhole};
use crate::walk::{Walk, WalkStage};

verus! {

/// Whether `c` is a lowercase hexadecimal digit.
pub open spec fn is_lower_hex(c: char) -> bool {
    (48 <= c as int <= 57) || (97 <= c as int <= 102)
}

/// Whether `s` is the hyphenated lowercase text of a random (version 4,
/// RFC 4122 variant) uuid: 36 characters, hyphens at 8, 13, 18 and 23, hex
/// digits elsewhere, `4` at 14, and one of `8 9 a b` at 19.
pub open spec fn is_v4_uuid_text(s: Seq<char>) -> bool {
    &&& s.len() == 36
    &&& forall|i: int|
        0 <= i < 36 ==> (if i == 8 || i == 13 || i == 18 || i == 23 {
            #[trigger] s[i] == '-'
        } else {
            is_lower_hex(s[i])
        })
    &&& s[14] == '4'
    &&& (s[19] == '8' || s[19] == '9' || s[19] == 'a' || s[19] == 'b')
}

/// A fresh random uuid, `Uuid::new_v4`, in hyphenated form
/// (`uuid::fmt::Hyphenated`, formatted by `to_string`, lowercase). Claimed:
/// the text has the layout of a version 4 uuid (`is_v4_uuid_text`). Its other
/// digits rest on chance and are not stated; the crate panics where the
/// system gives no random bytes.
#[verifier::external_body]
fn new_uuid() -> (r: String)
    ensures
        is_v4_uuid_text(r@),
{
    uuid::Uuid::new_v4().as_hyphenated().to_string()
}

/// The texture part of a model's result.
pub open spec fn model_textures(r: Result<BlockbenchModel, TextureError>) -> Result<
    Seq<crate::blockbench::TextureView>,
    TextureError,
> {
    match r {
        Ok(m) => Ok(textures_view(m.textures@)),
        Err(e) => Err(e),
    }
}

/// What a model built from `model` holds, given the texture uuids `tus`
/// and the uuids `pus` of its nodes below the root.
pub open spec fn model_ok(
    model: FiguraModelPart,
    textures: FiguraFileTextures,
    paths: Seq<Option<Seq<char>>>,
    tus: Seq<Seq<char>>,
    pus: Seq<Seq<char>>,
    r: Result<BlockbenchModel, TextureError>,
) -> bool {
    &&& textures_result_ok(textures, paths, tus, model_textures(r))
    &&& r matches Ok(m) ==> {
        &&& m.meta.format_version@ == "4.9"@
        &&& m.meta.model_format@ == "free"@
        &&& parts_view(m.elements@) == outline_of(model, pus).elements
        &&& children_view(m.outliner@) == outline_of(model, pus).outliner
        &&& m.elements@.len() == children_cubes(model.chld@).len()
        &&& forall|i: int|
            0 <= i < m.elements@.len() ==> element_copies_cube(
                #[trigger] m.elements@[i]@,
                children_cubes(model.chld@)[i],
            )
    }
}

/// The Blockbench model of the top-level part `model`: its textures (see
/// [`build_textures`]), then its elements and outliner (see
/// [`build_outline`]). Fails as gathering the textures fails.
pub fn build_model(
    model: &FiguraModelPart,
    textures: &FiguraFileTextures,
    paths: &Vec<Option<String>>,
    texture_uuids: &Vec<String>,
    part_uuids: &Vec<String>,
) -> (r: Result<BlockbenchModel, TextureError>)
    ensures
        model_ok(
            *model,
            *textures,
            opt_strings_view(paths@),
            strings_view(texture_uuids@),
            strings_view(part_uuids@),
            r,
        ),
{
    let textures = match build_textures(textures, paths, texture_uuids) {
        Ok(t) => t,
        Err(e) => {
            return Err(e);
        },
    };
    let (elements, outliner) = build_outline(model, part_uuids);
    Ok(BlockbenchModel { meta: BlockbenchModelMeta::default(), elements, outliner, textures })
}

/// Whether every text of `s` is the text of a random uuid.
pub open spec fn all_uuid_texts(s: Seq<Seq<char>>) -> bool {
    forall|i: int| 0 <= i < s.len() ==> #[trigger] is_v4_uuid_text(s[i])
}

proof fn lemma_push_uuid(before: Seq<Seq<char>>, after: Seq<String>)
    requires
        all_uuid_texts(before),
        after.len() == before.len() + 1,
        is_v4_uuid_text(after.last()@),
        forall|i: int| 0 <= i < before.len() ==> after[i]@ == before[i],
    ensures
        all_uuid_texts(strings_view(after)),
{
    let s = strings_view(after);
    assert forall|i: int| 0 <= i < s.len() implies #[trigger] is_v4_uuid_text(s[i]) by {
        if i < before.len() {
            assert(s[i] == before[i]);
        }
    }
}

/// Whether `taken` holds the text `u`.
fn holds_text(taken: &Vec<String>, u: &String) -> (r: bool)
    ensures
        r == strings_view(taken@).contains(u@),
{
    let mut i: usize = 0;
    while i < taken.len()
        invariant
            i <= taken@.len(),
            forall|j: int| 0 <= j < i ==> taken@[j]@ != u@,
        decreases taken@.len() - i,
    {
        if taken[i] == *u {
            assert(strings_view(taken@)[i as int] == u@);
            return true;
        }
        i = i + 1;
    }
    assert forall|j: int| 0 <= j < strings_view(taken@).len() implies strings_view(taken@)[j] != u@ by {
        assert(strings_view(taken@)[j] == taken@[j]@);
    }
    false
}

/// A uuid that `taken` does not hold: a fresh random one, or, where the draw
/// repeats one of `taken` (which chance all but rules out), the first
/// counter text that `taken` does not hold.
fn fresh_uuid(taken: &Vec<String>) -> (r: String)
    ensures
        is_v4_uuid_text(r@),
        !strings_view(taken@).contains(r@),
{
    let u = new_uuid();
    if !holds_text(taken, &u) {
        return u;
    }
    let len = taken.len();
    let mut c: usize = 0;
    loop
        invariant
            len == taken@.len(),
            c <= taken@.len(),
            forall|k: nat| k < c ==> strings_view(taken@).contains(#[trigger] counter_uuid(k)),
        decreases taken@.len() - c,
    {
        let t = counter_uuid_string(c);
        if !holds_text(taken, &t) {
            proof {
                counter_uuid_is_v4(c as nat);
            }
            return t;
        }
        proof {
            assert forall|k: nat| k <= c implies strings_view(taken@).contains(#[trigger] counter_uuid(k)) by {
                if k < c {
                } else {
                    assert(k == c);
                }
            }
            counter_uuids_pigeonhole(strings_view(taken@), c as nat);
            assert(strings_view(taken@).len() == taken@.len());
        }
        c = c + 1;
    }
}

proof fn lemma_push_fresh(s: Seq<Seq<char>>, x: Seq<char>)
    requires
        s.no_duplicates(),
        !s.contains(x),
    ensures
        s.push(x).no_duplicates(),
{
    let t = s.push(x);
    assert forall|i: int, j: int| 0 <= i < t.len() && 0 <= j < t.len() && i != j implies t[i] != t[j] by {
        if i < s.len() && j < s.len() {
            assert(t[i] == s[i] && t[j] == s[j]);
        } else if i < s.len() {
            assert(t[i] == s[i]);
        } else {
            assert(t[j] == s[j]);
        }
    }
}

/// [`build_model`] with fresh random uuids: one for each texture of the list
/// and one for each node of `model` below the root, no two alike.
pub fn convert_model(
    model: &FiguraModelPart,
    textures: &FiguraFileTextures,
    paths: &Vec<Option<String>>,
) -> (r: Result<BlockbenchModel, TextureError>)
    ensures
        exists|tus: Seq<Seq<char>>, pus: Seq<Seq<char>>|
            tus.len() == textures.data@.len() && pus.len() == children_count(model.chld@)
                && all_uuid_texts(tus) && all_uuid_texts(pus) && (tus + pus).no_duplicates()
                && model_ok(
                *model,
                *textures,
                opt_strings_view(paths@),
                tus,
                pus,
                r,
            ),
{
    let mut texture_uuids: Vec<String> = Vec::new();
    let mut part_uuids: Vec<String> = Vec::new();
    let mut drawn: Vec<String> = Vec::new();
    proof {
        assert(strings_view(drawn@) =~= strings_view(texture_uuids@) + strings_view(part_uuids@));
    }
    let n = textures.data.len();
    let mut j: usize = 0;
    while j < n
        invariant
            j <= n,
            n == textures.data@.len(),
            texture_uuids@.len() == j,
            part_uuids@.len() == 0,
            all_uuid_texts(strings_view(texture_uuids@)),
            strings_view(drawn@) == strings_view(texture_uuids@) + strings_view(part_uuids@),
            strings_view(drawn@).no_duplicates(),
        decreases n - j,
    {
        let u = fresh_uuid(&drawn);
        let ghost before = strings_view(texture_uuids@);
        let ghost before_drawn = strings_view(drawn@);
        drawn.push(u.clone());
        texture_uuids.push(u);
        proof {
            lemma_push_uuid(before, texture_uuids@);
            lemma_push_fresh(before_drawn, u@);
            assert(strings_view(drawn@) =~= before_drawn.push(u@));
            assert(strings_view(texture_uuids@) =~= before.push(u@));
            assert(strings_view(part_uuids@) =~= Seq::<Seq<char>>::empty());
            assert(strings_view(drawn@) =~= strings_view(texture_uuids@) + strings_view(part_uuids@));
        }
        j = j + 1;
    }
    let mut walk = Walk::new(model);
    let mut did_root = false;
    proof {
        walk_visits_each_node_once(*model);
    }
    loop
        invariant
            walk.well_formed(),
            all_uuid_texts(strings_view(part_uuids@)),
            texture_uuids@.len() == textures.data@.len(),
            all_uuid_texts(strings_view(texture_uuids@)),
            strings_view(drawn@) == strings_view(texture_uuids@) + strings_view(part_uuids@),
            strings_view(drawn@).no_duplicates(),
            enter_count(walk.remaining()) + part_uuids@.len() + (if did_root { 1nat } else { 0nat })
                == node_count(*model),
            !did_root ==> part_uuids@.len() == 0,
        ensures
            strings_view(drawn@) == strings_view(texture_uuids@) + strings_view(part_uuids@),
            strings_view(drawn@).no_duplicates(),
            walk.remaining().len() == 0,
            all_uuid_texts(strings_view(part_uuids@)),
            texture_uuids@.len() == textures.data@.len(),
            all_uuid_texts(strings_view(texture_uuids@)),
            part_uuids@.len() + (if did_root { 1nat } else { 0nat }) == node_count(*model),
            !did_root ==> part_uuids@.len() == 0,
        decreases walk.remaining().len(),
    {
        let ghost rem = walk.remaining();
        let stage = walk.next();
        proof {
            if rem.len() > 0 {
                assert(enter_count(rem) == (if rem[0] is Enter { 1nat } else { 0nat }) + enter_count(
                    rem.drop_first(),
                ));
            }
        }
        match stage {
            None => {
                break ;
            },
            Some(WalkStage::Enter(_)) => {
                if did_root {
                    let u = fresh_uuid(&drawn);
                    let ghost before = strings_view(part_uuids@);
                    let ghost before_drawn = strings_view(drawn@);
                    drawn.push(u.clone());
                    part_uuids.push(u);
                    proof {
                        lemma_push_uuid(before, part_uuids@);
                        lemma_push_fresh(before_drawn, u@);
                        assert(strings_view(drawn@) =~= before_drawn.push(u@));
                        assert(strings_view(part_uuids@) =~= before.push(u@));
                        assert(strings_view(drawn@) =~= strings_view(texture_uuids@) + strings_view(
                            part_uuids@,
                        ));
                    }
                } else {
                    did_root = true;
                }
            },
            Some(WalkStage::Leave) => {},
        }
    }
    assert(part_uuids@.len() == children_count(model.chld@));
    build_model(model, textures, paths, &texture_uuids, &part_uuids)
}

} // verus!
