//! The textures of a Blockbench model: each texture of the avatar's list,
//! embedded as a base64 `data:` text, with its size read from its PNG header.

use vstd::prelude::*;
use base64::Engine;
use crate::blockbench::{BlockbenchModelTexture, TextureView, textures_view};
use crate::figura::FiguraFileTextures;
use crate::names::{decimal, decimal_string, png_file_name};
use crate::registry::max_blob_len;

verus! {

#[verifier::external_type_specification]
#[verifier::external_body]
pub struct ExDecodingError(png::DecodingError);

/// The size (width, height) that the PNG header of `data` gives, or `None`
/// where the header cannot be read.
pub uninterp spec fn png_size(data: Seq<u8>) -> Option<(u32, u32)>;

/// The character of the standard base64 alphabet (`A-Z a-z 0-9 + /`) for
/// the six-bit value `v`.
pub open spec fn base64_char(v: int) -> char {
    if v < 26 {
        (65 + v) as char
    } else if v < 52 {
        (97 + (v - 26)) as char
    } else if v < 62 {
        (48 + (v - 52)) as char
    } else if v == 62 {
        '+'
    } else {
        '/'
    }
}

/// The standard base64 text of `data`, without padding: each three bytes
/// become four characters; a last single byte becomes two, a last two bytes
/// become three.
pub open spec fn base64_no_pad(data: Seq<u8>) -> Seq<char>
    decreases data.len(),
{
    if data.len() == 0 {
        Seq::empty()
    } else if data.len() == 1 {
        let b0 = data[0] as int;
        seq![base64_char(b0 / 4), base64_char((b0 % 4) * 16)]
    } else if data.len() == 2 {
        let b0 = data[0] as int;
        let b1 = data[1] as int;
        seq![
            base64_char(b0 / 4),
            base64_char((b0 % 4) * 16 + b1 / 16),
            base64_char((b1 % 16) * 4),
        ]
    } else {
        let b0 = data[0] as int;
        let b1 = data[1] as int;
        let b2 = data[2] as int;
        seq![
            base64_char(b0 / 4),
            base64_char((b0 % 4) * 16 + b1 / 16),
            base64_char((b1 % 16) * 4 + b2 / 64),
            base64_char(b2 % 64),
        ] + base64_no_pad(data.skip(3))
    }
}

/// Reads the PNG header of `data` with `png::Decoder::read_header_info`
/// (over a `Cursor` on the bytes) and returns `png::Info::size` of it.
/// Claimed: the call succeeds exactly where `png_size` gives a size, and then
/// returns that size; the header is a function of the bytes alone. Which
/// error comes back otherwise is not stated.
#[verifier::external_body]
fn png_header_size(data: &[u8]) -> (r: Result<(u32, u32), png::DecodingError>)
    ensures
        r is Ok <==> png_size(data@) is Some,
        r matches Ok(size) ==> png_size(data@) == Some(size),
{
    let mut decoder = png::Decoder::new(std::io::Cursor::new(data));
    match decoder.read_header_info() {
        Ok(info) => Ok(info.size()),
        Err(e) => Err(e),
    }
}

/// Encodes `data` with `base64::engine::general_purpose::STANDARD_NO_PAD`.
/// Claimed: the text returned is the standard base64 text of the bytes
/// without padding, as `base64_no_pad` spells it out. The crate
/// panics where the encoded length overflows a `usize`, which the bound on
/// the length rules out.
#[verifier::external_body]
fn encode_base64(data: &[u8]) -> (r: String)
    requires
        data@.len() <= max_blob_len(),
    ensures
        r@ == base64_no_pad(data@),
{
    base64::engine::general_purpose::STANDARD_NO_PAD.encode(data)
}

/// Why the textures of a model could not be gathered.
pub enum TextureError {
    /// A texture of the list has no image under its name.
    Missing(String),
    /// The image of a texture has no readable PNG header.
    Undecodable(png::DecodingError),
    /// The written file of a texture has no resolved path.
    Unresolved(String),
}

/// How a texture of the list fares.
pub enum TextureCheck {
    Fine,
    Missing,
    Undecodable,
    Unresolved,
}

/// How the texture `name`, whose file resolves to `path`, fares with the
/// images `src`.
pub open spec fn texture_check(
    src: Map<Seq<char>, Seq<u8>>,
    name: Seq<char>,
    path: Option<Seq<char>>,
) -> TextureCheck {
    if !src.contains_key(name) {
        TextureCheck::Missing
    } else if png_size(src[name]) is None {
        TextureCheck::Undecodable
    } else if path is None {
        TextureCheck::Unresolved
    } else {
        TextureCheck::Fine
    }
}

/// The `j`-th entry of `s`, or `None` where there are fewer.
pub open spec fn opt_at(s: Seq<Option<Seq<char>>>, j: int) -> Option<Seq<char>> {
    if 0 <= j < s.len() {
        s[j]
    } else {
        None
    }
}

/// The `j`-th text of `s`, or the empty text where there are fewer.
pub open spec fn text_at(s: Seq<Seq<char>>, j: int) -> Seq<char> {
    if 0 <= j < s.len() {
        s[j]
    } else {
        Seq::empty()
    }
}

/// The views of a sequence of optional texts.
pub open spec fn opt_strings_view(s: Seq<Option<String>>) -> Seq<Option<Seq<char>>> {
    s.map_values(
        |o: Option<String>|
            match o {
                Some(t) => Some(t@),
                None => None,
            },
    )
}

/// The texture named `name`, with image `data`, standing at `index` in the
/// avatar's texture list, its file resolving to `path`.
pub open spec fn texture_of(
    name: Seq<char>,
    data: Seq<u8>,
    index: nat,
    path: Seq<char>,
    uuid: Seq<char>,
) -> TextureView {
    let size = png_size(data)->0;
    TextureView {
        uuid,
        name: name + ".png"@,
        source: "data:image/png;base64,"@ + base64_no_pad(data),
        folder: Seq::empty(),
        id: decimal(index),
        relative_path: name + ".png"@,
        path,
        width: size.0,
        uv_width: size.0,
        height: size.1,
        uv_height: size.1,
    }
}

/// The textures of the list `names` fare well, up to (not including) `j`.
pub open spec fn fine_before(
    src: Map<Seq<char>, Seq<u8>>,
    names: Seq<Seq<char>>,
    paths: Seq<Option<Seq<char>>>,
    j: int,
) -> bool {
    forall|i: int| 0 <= i < j ==> #[trigger] texture_check(src, names[i], opt_at(paths, i)) is Fine
}

/// The names of the texture list.
pub open spec fn texture_names(t: FiguraFileTextures) -> Seq<Seq<char>> {
    t.data@.map_values(|e: crate::figura::FiguraFileTexturesData| e.d@)
}

/// What gathering the textures gives: all of them where each fares well,
/// else the error of the first that does not.
pub open spec fn textures_result_ok(
    t: FiguraFileTextures,
    paths: Seq<Option<Seq<char>>>,
    uuids: Seq<Seq<char>>,
    r: Result<Seq<TextureView>, TextureError>,
) -> bool {
    let names = texture_names(t);
    let n = names.len() as int;
    &&& r is Ok <==> fine_before(t.src@, names, paths, n)
    &&& r matches Ok(v) ==> v == Seq::new(
        n as nat,
        |j: int|
            texture_of(
                names[j],
                t.src@[names[j]],
                j as nat,
                opt_at(paths, j)->0,
                text_at(uuids, j),
            ),
    )
    &&& r matches Err(e) ==> exists|j: int|
        0 <= j < n && fine_before(t.src@, names, paths, j) && #[trigger] texture_check(
            t.src@,
            names[j],
            opt_at(paths, j),
        ) == match e {
            TextureError::Missing(_) => TextureCheck::Missing,
            TextureError::Undecodable(_) => TextureCheck::Undecodable,
            TextureError::Unresolved(_) => TextureCheck::Unresolved,
        } && match e {
            TextureError::Missing(name) => name@ == names[j],
            TextureError::Undecodable(_) => true,
            TextureError::Unresolved(name) => name@ == names[j],
        }
}

/// The views of a gathering's result.
pub open spec fn textures_result_view(r: Result<Vec<BlockbenchModelTexture>, TextureError>) -> Result<
    Seq<TextureView>,
    TextureError,
> {
    match r {
        Ok(v) => Ok(textures_view(v@)),
        Err(e) => Err(e),
    }
}

/// Gathers the textures of the avatar's list, in order, each with its index
/// in the list as its id. `paths[j]` is the
/// resolved path of the written file of the `j`-th texture (`None` where it
/// could not be resolved), `uuids[j]` its uuid.
pub fn build_textures(
    textures: &FiguraFileTextures,
    paths: &Vec<Option<String>>,
    uuids: &Vec<String>,
) -> (r: Result<Vec<BlockbenchModelTexture>, TextureError>)
    ensures
        textures_result_ok(
            *textures,
            opt_strings_view(paths@),
            crate::outline::strings_view(uuids@),
            textures_result_view(r),
        ),
{
    let ghost names = texture_names(*textures);
    let ghost ps = opt_strings_view(paths@);
    let ghost us = crate::outline::strings_view(uuids@);
    let ghost src = textures.src@;
    let mut out: Vec<BlockbenchModelTexture> = Vec::new();
    let n = textures.data.len();
    let mut j: usize = 0;
    while j < n
        invariant
            n == textures.data@.len(),
            names == texture_names(*textures),
            ps == opt_strings_view(paths@),
            us == crate::outline::strings_view(uuids@),
            src == textures.src@,
            j <= n,
            fine_before(src, names, ps, j as int),
            textures_view(out@) == Seq::new(
                j as nat,
                |i: int|
                    texture_of(names[i], src[names[i]], i as nat, opt_at(ps, i)->0, text_at(us, i)),
            ),
        decreases n - j,
    {
        let name = &textures.data[j].d;
        assert(name@ == names[j as int]);
        let data = match textures.src.get(name) {
            None => {
                assert(texture_check(src, names[j as int], opt_at(ps, j as int)) is Missing);
                return Err(TextureError::Missing(name.clone()));
            },
            Some(d) => d,
        };
        let size = match png_header_size(data.as_slice()) {
            Err(e) => {
                assert(texture_check(src, names[j as int], opt_at(ps, j as int)) is Undecodable);
                return Err(TextureError::Undecodable(e));
            },
            Ok(s) => s,
        };
        let path = if j < paths.len() {
            match &paths[j] {
                Some(p) => p.clone(),
                None => {
                    assert(texture_check(src, names[j as int], opt_at(ps, j as int)) is Unresolved);
                    return Err(TextureError::Unresolved(name.clone()));
                },
            }
        } else {
            assert(texture_check(src, names[j as int], opt_at(ps, j as int)) is Unresolved);
            return Err(TextureError::Unresolved(name.clone()));
        };
        let uuid = if j < uuids.len() {
            uuids[j].clone()
        } else {
            String::new()
        };
        let encoded = encode_base64(data.as_slice());
        let mut source = String::from_str("data:image/png;base64,");
        source.append(encoded.as_str());
        let texture = BlockbenchModelTexture {
            uuid,
            name: png_file_name(name.as_str()),
            source,
            folder: String::new(),
            id: decimal_string(j),
            relative_path: png_file_name(name.as_str()),
            path,
            width: size.0,
            uv_width: size.0,
            height: size.1,
            uv_height: size.1,
        };
        proof {
            assert(texture@ == texture_of(
                names[j as int],
                src[names[j as int]],
                j as nat,
                opt_at(ps, j as int)->0,
                text_at(us, j as int),
            ));
        }
        let ghost before = out@;
        out.push(texture);
        proof {
            assert(textures_view(out@) =~= textures_view(before).push(texture@));
        }
        j = j + 1;
    }
    Ok(out)
}

} // verus!
