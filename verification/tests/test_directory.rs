use serde_yml::utilities::directory::truncate;
use std::path::{Path, PathBuf};

fn on_path(path: &Path, length: usize) -> Option<String> {
    let components: Vec<String> = path
        .components()
        .map(|component| component.as_os_str().to_string_lossy().into_owned())
        .collect();
    let kept = truncate(&components, length)?;
    let truncated: PathBuf = kept.iter().collect();
    Some(truncated.to_string_lossy().to_string())
}

fn list(components: &[&str]) -> Vec<String> {
    components.iter().map(|c| c.to_string()).collect()
}

#[test]
fn test_truncate_path() {
    let path = Path::new("/a/b/c/d/e");

    let result = on_path(&path, 3);
    assert_eq!(result, Some("c/d/e".to_string()));

    let result = on_path(&path, 0);
    assert_eq!(result, None);

    let result = on_path(&path, 10);
    assert_eq!(result, None);
}

#[test]
fn test_truncate_keeps_the_last_components_in_order() {
    let components = list(&["/", "a", "b", "c", "d", "e"]);
    assert_eq!(truncate(&components, 1), Some(list(&["e"])));
    assert_eq!(truncate(&components, 2), Some(list(&["d", "e"])));
    assert_eq!(truncate(&components, 3), Some(list(&["c", "d", "e"])));
    assert_eq!(truncate(&components, 5), Some(list(&["a", "b", "c", "d", "e"])));
}

#[test]
fn test_truncate_of_every_component_is_the_path() {
    let components = list(&["/", "a", "b"]);
    assert_eq!(truncate(&components, 3), Some(components.clone()));
    assert_eq!(on_path(Path::new("/a/b"), 3), Some("/a/b".to_string()));
    assert_eq!(on_path(Path::new("a/b"), 2), Some("a/b".to_string()));
}

#[test]
fn test_truncate_of_nothing_asked_is_nothing() {
    assert_eq!(truncate(&list(&["a", "b"]), 0), None);
    assert_eq!(truncate(&list(&[]), 0), None);
}

#[test]
fn test_truncate_of_too_short_a_path_is_nothing() {
    assert_eq!(truncate(&list(&[]), 1), None);
    assert_eq!(truncate(&list(&["a"]), 2), None);
    assert_eq!(truncate(&list(&["a", "b"]), usize::MAX), None);
    assert_eq!(on_path(Path::new(""), 1), None);
}

#[test]
fn test_truncate_leaves_its_argument_alone() {
    let components = list(&["x", "y", "z"]);
    let kept = truncate(&components, 2);
    assert_eq!(components, list(&["x", "y", "z"]));
    assert_eq!(kept, Some(list(&["y", "z"])));
}
