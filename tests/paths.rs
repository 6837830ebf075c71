use pa_fetch::entry_path::sanitize_entry_name;

fn comps(v: &[&str]) -> Vec<String> {
    v.iter().map(|s| s.to_string()).collect()
}

#[test]
fn plain_name_splits_into_components() {
    assert_eq!(sanitize_entry_name("a/b.txt"), comps(&["a", "b.txt"]));
}

#[test]
fn parent_reference_cannot_escape() {
    assert_eq!(sanitize_entry_name("../escape.txt"), comps(&["escape.txt"]));
    assert_eq!(sanitize_entry_name("a/../../escape.txt"), comps(&["a", "escape.txt"]));
}

#[test]
fn absolute_name_stays_below_target() {
    assert_eq!(sanitize_entry_name("/etc/passwd"), comps(&["etc", "passwd"]));
}

#[test]
fn backslash_separates_components() {
    assert_eq!(sanitize_entry_name("dir\\file.bin"), comps(&["dir", "file.bin"]));
}

#[test]
fn current_dir_and_empty_pieces_are_dropped() {
    assert_eq!(sanitize_entry_name("./a//b/"), comps(&["a", "b"]));
}

#[test]
fn names_without_components_give_nothing() {
    assert!(sanitize_entry_name("").is_empty());
    assert!(sanitize_entry_name("..").is_empty());
    assert!(sanitize_entry_name("/").is_empty());
}

#[test]
fn dots_inside_names_are_kept() {
    assert_eq!(sanitize_entry_name("...x/..y/.z"), comps(&["...x", "..y", ".z"]));
}

#[test]
fn non_ascii_names_are_kept() {
    assert_eq!(sanitize_entry_name("über/ñ.txt"), comps(&["über", "ñ.txt"]));
}

#[test]
fn drive_prefix_pieces_are_dropped() {
    assert_eq!(sanitize_entry_name("C:/x"), comps(&["x"]));
    assert_eq!(sanitize_entry_name("C:\\Windows\\x.dll"), comps(&["Windows", "x.dll"]));
    assert_eq!(sanitize_entry_name("a:b/c"), comps(&["c"]));
}
