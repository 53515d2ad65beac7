use angle::args::{answer_is_yes, parse_args};
use angle::avatar::AvatarJson;
use angle::figura::FiguraFileMetadata;
use angle::names::{decimal_string, model_file_name, png_file_name, script_file_name};
use angle::registry::FileMap;

fn strings(v: &[&str]) -> Vec<String> {
    v.iter().map(|s| s.to_string()).collect()
}

#[test]
fn parse_args_takes_file_and_outdir() {
    let a = parse_args(&strings(&["angle", "avatar.moon", "out", "extra"])).ok().unwrap();
    assert_eq!(a.file, "avatar.moon");
    assert_eq!(a.outdir, "out");
}

#[test]
fn parse_args_without_outdir_shows_usage() {
    assert_eq!(parse_args(&strings(&["prog", "avatar.moon"])).err(), Some("prog".to_string()));
    assert_eq!(parse_args(&strings(&["prog"])).err(), Some("prog".to_string()));
    assert_eq!(parse_args(&vec![]).err(), Some("angle".to_string()));
}

#[test]
fn answer_with_y_is_yes() {
    assert!(answer_is_yes("y\n"));
    assert!(answer_is_yes("YES"));
    assert!(answer_is_yes("okay"));
    assert!(!answer_is_yes("no\n"));
    assert!(!answer_is_yes(""));
}

#[test]
fn avatar_json_lists_the_author() {
    let meta = FiguraFileMetadata { name: "Av".to_string(), authors: "me".to_string(), color: "#ff0".to_string() };
    let a = AvatarJson::from_metadata(meta);
    assert_eq!(a.name, "Av");
    assert_eq!(a.color, "#ff0");
    assert_eq!(a.authors, vec!["me".to_string()]);
}

#[test]
fn file_names_get_their_extensions() {
    assert_eq!(png_file_name("skin"), "skin.png");
    assert_eq!(script_file_name("main"), "main.lua");
    assert_eq!(model_file_name("model"), "model.bbmodel");
}

#[test]
fn decimal_numbers() {
    assert_eq!(decimal_string(0), "0");
    assert_eq!(decimal_string(7), "7");
    assert_eq!(decimal_string(10), "10");
    assert_eq!(decimal_string(1203), "1203");
    assert_eq!(decimal_string(usize::MAX), usize::MAX.to_string());
}

#[test]
fn file_map_reads_back_what_was_written() {
    let mut m = FileMap::new();
    assert!(m.is_empty());
    m.insert("a".to_string(), vec![1, 2]);
    m.insert("b".to_string(), vec![3]);
    m.insert("a".to_string(), vec![9]);
    assert_eq!(m.len(), 2);
    assert_eq!(m.get(&"a".to_string()), Some(&vec![9]));
    assert_eq!(m.get(&"b".to_string()), Some(&vec![3]));
    assert_eq!(m.get(&"c".to_string()), None);
    let (n0, d0) = m.entry(0);
    assert_eq!((n0.as_str(), d0.clone()), ("a", vec![9]));
    let (n1, _) = m.entry(1);
    assert_eq!(n1, "b");
}
