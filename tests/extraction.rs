use std::io::{Cursor, Write};

use pa_fetch::archive::{read_archive, ArchiveEntry};
use pa_fetch::error::PipelineError;
use pa_fetch::extract::{extract_plan, plan_extraction, ExtractAction};
use zip::write::SimpleFileOptions;
use zip::ZipWriter;

enum Item<'a> {
    Dir(&'a str),
    File(&'a str, &'a [u8]),
}

fn build_archive(items: &[Item]) -> Vec<u8> {
    let mut w = ZipWriter::new(Cursor::new(Vec::new()));
    for item in items {
        match item {
            Item::Dir(name) => w.add_directory(*name, SimpleFileOptions::default()).unwrap(),
            Item::File(name, data) => {
                w.start_file(*name, SimpleFileOptions::default()).unwrap();
                w.write_all(data).unwrap();
            }
        }
    }
    w.finish().unwrap().into_inner()
}

fn path(v: &[&str]) -> Vec<String> {
    v.iter().map(|s| s.to_string()).collect()
}

fn dir(v: &[&str]) -> ExtractAction {
    ExtractAction::CreateDirAll(path(v))
}

fn file(v: &[&str], data: &[u8]) -> ExtractAction {
    ExtractAction::WriteFile(path(v), data.to_vec())
}

fn entry(name: &str, is_dir: bool, data: &[u8]) -> ArchiveEntry {
    ArchiveEntry { name: name.to_string(), is_dir, data: data.to_vec() }
}

fn same_plan(got: &[ExtractAction], want: &[ExtractAction]) -> bool {
    format!("{:?}", got) == format!("{:?}", want)
}

#[test]
fn reads_names_flags_and_bytes() {
    let bytes = build_archive(&[Item::Dir("a"), Item::File("a/b.txt", b"hello")]);
    let entries = read_archive(bytes).unwrap();
    assert_eq!(entries.len(), 2);
    assert_eq!(entries[0].name, "a/");
    assert!(entries[0].is_dir);
    assert!(entries[0].data.is_empty());
    assert_eq!(entries[1].name, "a/b.txt");
    assert!(!entries[1].is_dir);
    assert_eq!(entries[1].data, b"hello".to_vec());
}

#[test]
fn empty_archive_has_no_entries() {
    let entries = read_archive(build_archive(&[])).unwrap();
    assert!(entries.is_empty());
}

#[test]
fn garbage_is_not_an_archive() {
    assert_eq!(read_archive(b"not a zip file at all".to_vec()).unwrap_err(), PipelineError::InvalidArchive);
    assert_eq!(read_archive(Vec::new()).unwrap_err(), PipelineError::InvalidArchive);
}

#[test]
fn garbage_gives_no_plan() {
    assert_eq!(extract_plan(b"PK but not really".to_vec()).unwrap_err(), PipelineError::InvalidArchive);
}

#[test]
fn corrupt_entry_makes_archive_invalid() {
    let mut w = ZipWriter::new(Cursor::new(Vec::new()));
    let stored = SimpleFileOptions::default().compression_method(zip::CompressionMethod::Stored);
    w.start_file("f.txt", stored).unwrap();
    w.write_all(b"payload-bytes").unwrap();
    let mut bytes = w.finish().unwrap().into_inner();
    let at = bytes.windows(13).position(|win| win == b"payload-bytes").unwrap();
    bytes[at] ^= 0xff;
    assert_eq!(read_archive(bytes.clone()).unwrap_err(), PipelineError::InvalidArchive);
    assert_eq!(extract_plan(bytes).unwrap_err(), PipelineError::InvalidArchive);
}

#[test]
fn path_error_comes_from_a_readable_archive() {
    let bytes = build_archive(&[Item::File("..", b"x")]);
    assert_eq!(extract_plan(bytes).unwrap_err(), PipelineError::Path);
}

#[test]
fn directory_and_nested_file_scenario() {
    let bytes = build_archive(&[Item::Dir("a/"), Item::File("a/b.txt", b"content of b")]);
    let plan = extract_plan(bytes).unwrap();
    let want = [dir(&[]), dir(&["a"]), dir(&["a"]), file(&["a", "b.txt"], b"content of b")];
    assert!(same_plan(&plan, &want));
}

#[test]
fn parent_directory_made_before_file_in_any_order() {
    let bytes = build_archive(&[Item::File("x/y/z.txt", b"z"), Item::Dir("x/")]);
    let plan = extract_plan(bytes).unwrap();
    let want = [dir(&["x", "y"]), file(&["x", "y", "z.txt"], b"z"), dir(&[]), dir(&["x"])];
    assert!(same_plan(&plan, &want));
}

#[test]
fn empty_directory_entry_is_made() {
    let plan = extract_plan(build_archive(&[Item::Dir("empty")])).unwrap();
    assert!(same_plan(&plan, &[dir(&[]), dir(&["empty"])]));
}

#[test]
fn escaping_entry_lands_inside_target() {
    let bytes = build_archive(&[Item::File("../escape.txt", b"e"), Item::File("/abs/f", b"f")]);
    let plan = extract_plan(bytes).unwrap();
    let want = [dir(&[]), file(&["escape.txt"], b"e"), dir(&["abs"]), file(&["abs", "f"], b"f")];
    assert!(same_plan(&plan, &want));
}

#[test]
fn every_file_keeps_its_bytes() {
    let big: Vec<u8> = (0..5000u32).map(|i| (i % 251) as u8).collect();
    let bytes = build_archive(&[Item::File("one", b""), Item::File("d/two", &big)]);
    let plan = extract_plan(bytes).unwrap();
    let want = [dir(&[]), file(&["one"], b""), dir(&["d"]), file(&["d", "two"], &big)];
    assert!(same_plan(&plan, &want));
}

#[test]
fn later_entry_of_same_path_is_written_last() {
    let entries = vec![entry("f", false, b"old"), entry("./f", false, b"new")];
    let plan = plan_extraction(&entries).unwrap();
    assert!(same_plan(&plan, &[dir(&[]), file(&["f"], b"old"), dir(&[]), file(&["f"], b"new")]));
}

#[test]
fn file_without_components_is_a_path_error() {
    let entries = vec![entry("ok.txt", false, b"1"), entry("..", false, b"2")];
    assert_eq!(plan_extraction(&entries).unwrap_err(), PipelineError::Path);
}

#[test]
fn directory_without_components_is_the_target() {
    let entries = vec![entry("/", true, b"")];
    assert!(same_plan(&plan_extraction(&entries).unwrap(), &[dir(&[]), dir(&[])]));
}

#[test]
fn no_entries_give_no_steps() {
    assert!(plan_extraction(&Vec::new()).unwrap().is_empty());
}
