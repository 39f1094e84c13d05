use hydroshot::path_env::{path_with_dir, path_without_dir};

#[test]
fn adds_a_missing_dir() {
    assert_eq!(path_with_dir("C:\\a;C:\\b", "C:\\tool"), Some("C:\\a;C:\\b;C:\\tool".to_string()));
    assert_eq!(path_with_dir("C:\\a;;", "C:\\tool"), Some("C:\\a;C:\\tool".to_string()));
    assert_eq!(path_with_dir("", "C:\\tool"), Some("C:\\tool".to_string()));
}

#[test]
fn present_dir_is_not_added_again() {
    assert_eq!(path_with_dir("C:\\a; c:\\TOOL ;C:\\b", "C:\\Tool"), None);
    let once = path_with_dir("C:\\a", "C:\\tool").expect("added");
    assert_eq!(path_with_dir(&once, "C:\\tool"), None);
}

#[test]
fn removes_every_copy_and_blank_entries() {
    assert_eq!(path_without_dir("C:\\a;C:\\Tool; ;c:\\tool ;C:\\b", "C:\\TOOL"), "C:\\a;C:\\b");
    assert_eq!(path_without_dir("C:\\tool", "C:\\tool"), "");
    assert_eq!(path_without_dir("C:\\a", "C:\\tool"), "C:\\a");
}

#[test]
fn add_then_remove_restores_clean_path() {
    let added = path_with_dir("C:\\a;C:\\b", "D:\\x").expect("added");
    assert_eq!(path_without_dir(&added, "D:\\x"), "C:\\a;C:\\b");
}
