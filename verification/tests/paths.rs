use zgc::ast::ast_types::Path;

fn path(segs: &[&str]) -> Path {
    Path(segs.iter().map(|s| s.to_string()).collect())
}

#[test]
fn push_then_pop_restores_path() {
    let mut p = path(&["std", "vec"]);
    p.push("push".to_string());
    assert_eq!(p.base(), "push");
    p.pop();
    assert_eq!(p, path(&["std", "vec"]));
}

#[test]
fn pop_on_empty_path_does_nothing() {
    let mut p = path(&[]);
    p.pop();
    assert_eq!(p.len(), 0);
}

#[test]
fn first_base_and_fname() {
    let p = path(&["std", "vec", "push"]);
    assert_eq!(p.first(), "std");
    assert_eq!(p.base(), "push");
    assert_eq!(p.fname(), Some("vec"));
    assert_eq!(p.len(), 3);
}

#[test]
fn pop_first_drops_root() {
    let mut p = path(&["std", "vec"]);
    p.pop_first();
    assert_eq!(p, path(&["vec"]));
}

#[test]
fn modules_paths() {
    let p = path(&["std", "vec", "push"]);
    assert!(p.is_module_path());
    assert!(!path(&["x"]).is_module_path());
    assert_eq!(p.modules_path(), vec!["std", "vec"]);
    assert_eq!(p.vec(), vec!["std", "vec", "push"]);
    assert_eq!(path(&["x"]).modules_path(), Vec::<&str>::new());
}

#[test]
fn path_display_joins_segments() {
    assert_eq!(path(&["std", "vec", "push"]).to_string(), "std::vec::push");
    assert_eq!(path(&["main"]).to_string(), "main");
    assert_eq!(path(&[]).to_string(), "");
}

#[test]
fn file_segments_drop_the_extension() {
    let p = Path::from_file_segments(vec!["examples".to_string(), "quicksort.zg".to_string()]);
    assert_eq!(p, path(&["examples", "quicksort"]));
    assert_eq!(Path::from_file_segments(vec!["notes.txt".to_string()]), path(&["notes.txt"]));
    assert_eq!(Path::from_file_segments(vec![".zg".to_string()]), path(&[""]));
    assert_eq!(Path::from_file_segments(Vec::new()), path(&[]));
}
