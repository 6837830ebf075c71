use pa_fetch::config::{archive_file_name, resolve_url};

#[test]
fn versioned_url_names_the_version() {
    assert_eq!(resolve_url(Some("1.0")), "https://pa.toaaa.de/1.0/Project-Apparatus.zip");
}

#[test]
fn missing_version_fetches_latest() {
    assert_eq!(resolve_url(None), "https://pa.toaaa.de/latest/Project-Apparatus-latest.zip");
}

#[test]
fn explicit_latest_uses_versioned_template() {
    assert_eq!(resolve_url(Some("latest")), "https://pa.toaaa.de/latest/Project-Apparatus.zip");
}

#[test]
fn empty_version_keeps_template() {
    assert_eq!(resolve_url(Some("")), "https://pa.toaaa.de//Project-Apparatus.zip");
}

#[test]
fn archive_is_stored_under_fixed_name() {
    assert_eq!(archive_file_name(), "Project-Apparatus.zip");
}
