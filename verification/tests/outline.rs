use angle::blockbench::{BlockbenchModelGroupChild, BlockbenchModelMeta, BlockbenchModelPartFace};
use angle::figura::{FiguraModelBoxData, FiguraModelBoxDataFace, FiguraModelPart};
use angle::outline::build_outline;
use angle::walk::{Walk, WalkStage};

fn face(tex: usize) -> FiguraModelBoxDataFace {
    FiguraModelBoxDataFace { uv: [0.0f32.to_bits(), 1.0f32.to_bits(), 2.5f32.to_bits(), 4.0f32.to_bits()], tex }
}

fn cube_data() -> FiguraModelBoxData {
    FiguraModelBoxData { d: face(0), e: face(1), n: face(2), s: face(3), u: face(4), w: face(5) }
}

fn group(name: &str, chld: Vec<FiguraModelPart>) -> FiguraModelPart {
    FiguraModelPart {
        name: name.to_string(),
        chld,
        f: [0; 3],
        t: [0; 3],
        piv: [1.5f32.to_bits(), 0, 0],
        rot: None,
        cube_data: None,
    }
}

fn cube(name: &str, chld: Vec<FiguraModelPart>) -> FiguraModelPart {
    FiguraModelPart {
        name: name.to_string(),
        chld,
        f: [1.0f32.to_bits(), 2.0f32.to_bits(), 3.0f32.to_bits()],
        t: [4.0f32.to_bits(), 5.0f32.to_bits(), 6.0f32.to_bits()],
        piv: [0.5f32.to_bits(), 0, 0],
        rot: Some([0, 90.0f32.to_bits(), 0]),
        cube_data: Some(cube_data()),
    }
}

fn uuids(n: usize) -> Vec<String> {
    (0..n).map(|i| format!("u{i}")).collect()
}

fn stages(model: &FiguraModelPart) -> Vec<String> {
    let mut walk = Walk::new(model);
    let mut out = vec![];
    while let Some(s) = walk.next() {
        match s {
            WalkStage::Enter(p) => out.push(format!("+{}", p.name)),
            WalkStage::Leave => out.push("-".to_string()),
        }
    }
    out
}

fn render(children: &[BlockbenchModelGroupChild]) -> String {
    let mut s = String::new();
    for c in children {
        match c {
            BlockbenchModelGroupChild::Part(u) => s.push_str(&format!("{u} ")),
            BlockbenchModelGroupChild::Group(g) => {
                assert!(!g.is_open);
                s.push_str(&format!("{}:{}[{}] ", g.name, g.uuid, render(&g.children)));
            }
        }
    }
    s.trim_end().to_string()
}

#[test]
fn walk_enters_and_leaves_in_depth_first_order() {
    let model = group("root", vec![group("a", vec![cube("b", vec![])]), cube("c", vec![])]);
    assert_eq!(stages(&model), vec!["+root", "+a", "+b", "-", "-", "+c", "-", "-"]);
}

#[test]
fn walk_is_over_after_its_last_step() {
    let model = group("root", vec![]);
    let mut walk = Walk::new(&model);
    assert!(matches!(walk.next(), Some(WalkStage::Enter(_))));
    assert!(matches!(walk.next(), Some(WalkStage::Leave)));
    assert!(walk.next().is_none());
    assert!(walk.next().is_none());
}

#[test]
fn walk_has_two_steps_per_node() {
    let model = group("r", vec![group("a", vec![group("b", vec![]), cube("c", vec![])]), cube("d", vec![])]);
    assert_eq!(stages(&model).len(), 2 * 5);
}

#[test]
fn outline_of_plain_tree_follows_the_tree() {
    let model = group(
        "root",
        vec![group("body", vec![cube("torso", vec![]), group("arm", vec![cube("hand", vec![])])]), cube("head", vec![])],
    );
    let (elements, outliner) = build_outline(&model, &uuids(6));
    assert_eq!(render(&outliner), "body:u0[u1 arm:u2[u3]] u4");
    let names: Vec<(&str, &str)> = elements.iter().map(|e| (e.name.as_str(), e.uuid.as_str())).collect();
    assert_eq!(names, vec![("torso", "u1"), ("hand", "u3"), ("head", "u4")]);
}

#[test]
fn element_copies_the_cube() {
    let model = group("root", vec![cube("c", vec![])]);
    let (elements, _) = build_outline(&model, &uuids(1));
    let e = &elements[0];
    let c = cube("c", vec![]);
    assert_eq!(e.origin, c.piv);
    assert_eq!(e.from, c.f);
    assert_eq!(e.to, c.t);
    assert_eq!(e.rotation, c.rot);
    assert_eq!(e.faces.north.texture, 2);
    assert_eq!(e.faces.east.texture, 1);
    assert_eq!(e.faces.south.texture, 3);
    assert_eq!(e.faces.west.texture, 5);
    assert_eq!(e.faces.up.texture, 4);
    assert_eq!(e.faces.down.texture, 0);
    assert_eq!(f32::from_bits(e.faces.up.uv[2]), 2.5);
}

#[test]
fn group_takes_the_pivot_as_origin() {
    let model = group("root", vec![group("g", vec![])]);
    let (elements, outliner) = build_outline(&model, &uuids(1));
    assert!(elements.is_empty());
    match &outliner[0] {
        BlockbenchModelGroupChild::Group(g) => {
            assert_eq!(f32::from_bits(g.origin[0]), 1.5);
            assert!(g.children.is_empty());
        }
        _ => panic!("expected a group"),
    }
}

#[test]
fn root_gets_no_entry() {
    let model = cube("root", vec![]);
    let (elements, outliner) = build_outline(&model, &uuids(3));
    assert!(elements.is_empty());
    assert!(outliner.is_empty());
}

#[test]
fn cube_with_children_closes_its_group_early() {
    // Leaving a cube that has children closes the group around it, so the
    // cube `after` lands at the top level instead of inside `g`.
    let model = group("root", vec![group("g", vec![cube("c", vec![cube("d", vec![])]), cube("after", vec![])])]);
    let (elements, outliner) = build_outline(&model, &uuids(5));
    assert_eq!(render(&outliner), "g:u0[u1 u2] u3");
    assert_eq!(elements.len(), 3);
    assert_eq!(elements[2].name, "after");
}

#[test]
fn missing_uuids_are_empty() {
    let model = group("root", vec![cube("a", vec![]), cube("b", vec![])]);
    let (elements, outliner) = build_outline(&model, &uuids(1));
    assert_eq!(elements[0].uuid, "u0");
    assert_eq!(elements[1].uuid, "");
    assert_eq!(outliner.len(), 2);
}

#[test]
fn face_new_copies_mapping_and_texture() {
    let f = face(7);
    let b = BlockbenchModelPartFace::new(&f);
    assert_eq!(b.uv, f.uv);
    assert_eq!(b.texture, 7);
}

#[test]
fn meta_default_is_free_format_four_nine() {
    let m = BlockbenchModelMeta::default();
    assert_eq!(m.format_version, "4.9");
    assert_eq!(m.model_format, "free");
}

#[test]
fn walk_open_count_follows_depth() {
    // root(0) -> a(1) -> b(2), and c(1)
    let model = group("root", vec![group("a", vec![cube("b", vec![])]), cube("c", vec![])]);
    let depth = |name: &str| match name {
        "root" => 0,
        "a" | "c" => 1,
        _ => 2,
    };
    let mut walk = Walk::new(&model);
    let mut open: i32 = 0;
    let mut stack: Vec<i32> = vec![];
    let mut steps = 0;
    while let Some(s) = walk.next() {
        steps += 1;
        match s {
            WalkStage::Enter(p) => {
                open += 1;
                stack.push(depth(&p.name));
                assert_eq!(open, depth(&p.name) + 1);
            }
            WalkStage::Leave => {
                open -= 1;
                let d = stack.pop().unwrap();
                assert_eq!(open, d);
            }
        }
        if steps < 8 {
            assert!(open >= 1);
        }
    }
    assert_eq!((steps, open), (8, 0));
}
