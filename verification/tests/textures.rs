use angle::convert::{build_model, convert_model};
use angle::figura::{
    FiguraFileTextures, FiguraFileTexturesData, FiguraModelBoxData, FiguraModelBoxDataFace, FiguraModelPart,
};
use angle::registry::FileMap;
use angle::textures::{build_textures, TextureError};
use base64::Engine;

fn crc32(bytes: &[u8]) -> u32 {
    let mut crc: u32 = 0xFFFF_FFFF;
    for &b in bytes {
        crc ^= b as u32;
        for _ in 0..8 {
            let mask = (!(crc & 1)).wrapping_add(1);
            crc = (crc >> 1) ^ (0xEDB8_8320 & mask);
        }
    }
    !crc
}

/// A PNG signature and IHDR chunk for an image of `w` by `h`.
fn png_header(w: u32, h: u32) -> Vec<u8> {
    let mut out = vec![0x89, b'P', b'N', b'G', 0x0D, 0x0A, 0x1A, 0x0A];
    let mut chunk = b"IHDR".to_vec();
    chunk.extend_from_slice(&w.to_be_bytes());
    chunk.extend_from_slice(&h.to_be_bytes());
    chunk.extend_from_slice(&[8, 6, 0, 0, 0]);
    out.extend_from_slice(&13u32.to_be_bytes());
    out.extend_from_slice(&chunk);
    out.extend_from_slice(&crc32(&chunk).to_be_bytes());
    out
}

fn textures(entries: &[(&str, Vec<u8>)], list: &[&str]) -> FiguraFileTextures {
    let mut src = FileMap::new();
    for (name, data) in entries {
        src.insert(name.to_string(), data.clone());
    }
    FiguraFileTextures {
        src,
        data: list.iter().map(|n| FiguraFileTexturesData { d: n.to_string() }).collect(),
    }
}

fn strings(v: &[&str]) -> Vec<String> {
    v.iter().map(|s| s.to_string()).collect()
}

#[test]
fn textures_embed_image_and_size() {
    let skin = png_header(64, 32);
    let t = textures(&[("skin", skin.clone())], &["skin"]);
    let paths = vec![Some("/out/skin.png".to_string())];
    let r = build_textures(&t, &paths, &strings(&["t0"])).ok().unwrap();
    assert_eq!(r.len(), 1);
    let tex = &r[0];
    assert_eq!(tex.uuid, "t0");
    assert_eq!(tex.name, "skin.png");
    assert_eq!(tex.relative_path, "skin.png");
    assert_eq!(tex.path, "/out/skin.png");
    assert_eq!(tex.folder, "");
    assert_eq!(tex.id, "0");
    assert_eq!((tex.width, tex.uv_width, tex.height, tex.uv_height), (64, 64, 32, 32));
    let expected = format!("data:image/png;base64,{}", base64::engine::general_purpose::STANDARD_NO_PAD.encode(&skin));
    assert_eq!(tex.source, expected);
    assert!(!tex.source.ends_with('='));
    assert!(tex.source.starts_with("data:image/png;base64,iVBORw0KGgo"));
}

#[test]
fn textures_follow_the_list_order() {
    let t = textures(&[("a", png_header(1, 2)), ("b", png_header(3, 4))], &["b", "a", "b"]);
    let paths = vec![Some("pb".to_string()), Some("pa".to_string()), Some("pb".to_string())];
    let r = build_textures(&t, &paths, &strings(&["x", "y", "z"])).ok().unwrap();
    let got: Vec<(&str, u32, &str, &str)> =
        r.iter().map(|t| (t.name.as_str(), t.width, t.uuid.as_str(), t.id.as_str())).collect();
    assert_eq!(got, vec![("b.png", 3, "x", "0"), ("a.png", 1, "y", "1"), ("b.png", 3, "z", "2")]);
}

#[test]
fn missing_texture_is_an_error() {
    let t = textures(&[("a", png_header(1, 1))], &["a", "ghost", "worse"]);
    let paths = vec![Some("p".to_string()); 3];
    match build_textures(&t, &paths, &vec![]) {
        Err(TextureError::Missing(name)) => assert_eq!(name, "ghost"),
        _ => panic!("expected a missing texture"),
    }
}

#[test]
fn unreadable_png_is_an_error() {
    let t = textures(&[("a", b"not a png".to_vec())], &["a"]);
    let paths = vec![Some("p".to_string())];
    assert!(matches!(build_textures(&t, &paths, &vec![]), Err(TextureError::Undecodable(_))));
}

#[test]
fn unresolved_path_is_an_error() {
    let t = textures(&[("a", png_header(1, 1))], &["a"]);
    match build_textures(&t, &vec![None], &vec![]) {
        Err(TextureError::Unresolved(name)) => assert_eq!(name, "a"),
        _ => panic!("expected an unresolved path"),
    }
}

#[test]
fn empty_texture_list_gives_no_textures() {
    let t = textures(&[], &[]);
    assert!(build_textures(&t, &vec![], &vec![]).ok().unwrap().is_empty());
}

fn part(name: &str, chld: Vec<FiguraModelPart>, cube: bool) -> FiguraModelPart {
    let f = FiguraModelBoxDataFace { uv: [0; 4], tex: 0 };
    FiguraModelPart {
        name: name.to_string(),
        chld,
        f: [0; 3],
        t: [0; 3],
        piv: [0; 3],
        rot: None,
        cube_data: if cube { Some(FiguraModelBoxData { d: f, e: f, n: f, s: f, u: f, w: f }) } else { None },
    }
}

#[test]
fn build_model_puts_textures_and_outline_together() {
    let t = textures(&[("a", png_header(16, 16))], &["a"]);
    let model = part("m", vec![part("g", vec![part("c", vec![], true)], false)], false);
    let m = build_model(&model, &t, &vec![Some("pa".to_string())], &strings(&["t"]), &strings(&["g0", "c0"]))
        .ok()
        .unwrap();
    assert_eq!(m.meta.format_version, "4.9");
    assert_eq!(m.meta.model_format, "free");
    assert_eq!(m.textures.len(), 1);
    assert_eq!(m.elements.len(), 1);
    assert_eq!(m.elements[0].uuid, "c0");
    assert_eq!(m.outliner.len(), 1);
}

#[test]
fn build_model_fails_with_its_textures() {
    let t = textures(&[], &["gone"]);
    let model = part("m", vec![], false);
    assert!(matches!(
        build_model(&model, &t, &vec![None], &vec![], &vec![]),
        Err(TextureError::Missing(_))
    ));
}

#[test]
fn convert_model_gives_fresh_uuids() {
    let t = textures(&[("a", png_header(2, 2))], &["a"]);
    let model = part("m", vec![part("c1", vec![], true), part("c2", vec![], true)], false);
    let m = convert_model(&model, &t, &vec![Some("pa".to_string())]).ok().unwrap();
    let mut ids: Vec<String> = m.elements.iter().map(|e| e.uuid.clone()).collect();
    ids.push(m.textures[0].uuid.clone());
    for id in &ids {
        assert_eq!(id.len(), 36);
        let b = id.as_bytes();
        for (i, c) in b.iter().enumerate() {
            if [8, 13, 18, 23].contains(&i) {
                assert_eq!(*c, b'-');
            } else {
                assert!(c.is_ascii_digit() || (b'a'..=b'f').contains(c));
            }
        }
        assert_eq!(b[14], b'4');
        assert!([b'8', b'9', b'a', b'b'].contains(&b[19]));
    }
    ids.sort();
    ids.dedup();
    assert_eq!(ids.len(), 3);
}
