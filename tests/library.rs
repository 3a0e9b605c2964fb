use studio_library::error::{ErrorKind, IoStep, LibraryError};
use studio_library::listing::{build_listing, entry_record, insert_newest_first, DirEntryInfo, EntryMetadata};
use studio_library::naming::{has_library_extension, library_folder_parts};
use studio_library::record::LibraryFile;
use studio_library::store::{check_rename, require_present};

fn entry(name: &str, size: u64, modified: Option<u64>) -> DirEntryInfo {
    DirEntryInfo { name: name.to_string(), metadata: Some(EntryMetadata { size, modified }) }
}

fn unreadable(name: &str) -> DirEntryInfo {
    DirEntryInfo { name: name.to_string(), metadata: None }
}

fn summary(files: &[LibraryFile]) -> Vec<(String, u64, u64)> {
    files.iter().map(|f| (f.name.clone(), f.size, f.modified)).collect()
}

#[test]
fn extension_accepts_library_files() {
    assert!(has_library_extension("a.aif-bin"));
    assert!(has_library_extension("track 01.aif-bin"));
    assert!(has_library_extension("..aif-bin"));
}

#[test]
fn extension_rejects_other_names() {
    assert!(!has_library_extension("note.txt"));
    assert!(!has_library_extension(".aif-bin"));
    assert!(!has_library_extension("a.AIF-BIN"));
    assert!(!has_library_extension("a.aif-bin.bak"));
    assert!(!has_library_extension("aif-bin"));
    assert!(!has_library_extension(""));
}

#[test]
fn folder_under_documents() {
    let parts = library_folder_parts(Some("/home/u/Documents".to_string()));
    assert_eq!(parts, vec!["/home/u/Documents", "AIF-BIN Studio", "library"]);
}

#[test]
fn folder_falls_back_to_current_dir() {
    let parts = library_folder_parts(None);
    assert_eq!(parts, vec![".", "AIF-BIN Studio", "library"]);
}

#[test]
fn folder_is_the_same_on_every_call() {
    let a = library_folder_parts(Some("/docs".to_string()));
    let b = library_folder_parts(Some("/docs".to_string()));
    assert_eq!(a, b);
}

#[test]
fn listing_two_files_newest_first() {
    let entries = vec![entry("a.aif-bin", 3, Some(1000)), entry("b.aif-bin", 2, Some(1001))];
    let files = build_listing(&entries);
    let names: Vec<(String, u64)> = files.iter().map(|f| (f.name.clone(), f.size)).collect();
    assert_eq!(names, vec![("b.aif-bin".to_string(), 2), ("a.aif-bin".to_string(), 3)]);
}

#[test]
fn listing_leaves_out_other_extensions() {
    let entries = vec![
        entry("note.txt", 10, Some(5)),
        entry("a.aif-bin", 3, Some(4)),
        entry(".aif-bin", 1, Some(6)),
    ];
    let files = build_listing(&entries);
    assert_eq!(summary(&files), vec![("a.aif-bin".to_string(), 3, 4)]);
}

#[test]
fn listing_strictly_newest_first_for_increasing_times() {
    let entries = vec![
        entry("c.aif-bin", 1, Some(30)),
        entry("a.aif-bin", 1, Some(10)),
        entry("d.aif-bin", 1, Some(40)),
        entry("b.aif-bin", 1, Some(20)),
    ];
    let files = build_listing(&entries);
    let times: Vec<u64> = files.iter().map(|f| f.modified).collect();
    assert_eq!(times, vec![40, 30, 20, 10]);
}

#[test]
fn listing_skips_unreadable_metadata() {
    let entries = vec![unreadable("a.aif-bin"), entry("b.aif-bin", 7, Some(2))];
    let files = build_listing(&entries);
    assert_eq!(summary(&files), vec![("b.aif-bin".to_string(), 7, 2)]);
}

#[test]
fn listing_unknown_time_is_zero() {
    let entries = vec![entry("a.aif-bin", 4, None), entry("b.aif-bin", 5, Some(9))];
    let files = build_listing(&entries);
    assert_eq!(
        summary(&files),
        vec![("b.aif-bin".to_string(), 5, 9), ("a.aif-bin".to_string(), 4, 0)]
    );
}

#[test]
fn listing_equal_times_keep_walk_order() {
    let entries = vec![
        entry("x.aif-bin", 1, Some(3)),
        entry("y.aif-bin", 2, Some(3)),
        entry("z.aif-bin", 3, Some(8)),
    ];
    let files = build_listing(&entries);
    let names: Vec<String> = files.iter().map(|f| f.name.clone()).collect();
    assert_eq!(names, vec!["z.aif-bin", "x.aif-bin", "y.aif-bin"]);
}

#[test]
fn listing_of_empty_folder_is_empty() {
    let files = build_listing(&Vec::new());
    assert!(files.is_empty());
}

#[test]
fn listing_largest_values() {
    let entries = vec![entry("a.aif-bin", u64::MAX, Some(u64::MAX)), entry("b.aif-bin", 0, Some(0))];
    let files = build_listing(&entries);
    assert_eq!(
        summary(&files),
        vec![("a.aif-bin".to_string(), u64::MAX, u64::MAX), ("b.aif-bin".to_string(), 0, 0)]
    );
}

#[test]
fn entry_record_of_library_file() {
    let r = entry_record(&entry("k.aif-bin", 12, Some(77))).unwrap();
    assert_eq!((r.name.as_str(), r.size, r.modified), ("k.aif-bin", 12, 77));
    assert!(entry_record(&entry("k.txt", 12, Some(77))).is_none());
    assert!(entry_record(&unreadable("k.aif-bin")).is_none());
}

#[test]
fn insert_places_after_equal_times() {
    let mut files = vec![LibraryFile::new("a".to_string(), 1, 9), LibraryFile::new("b".to_string(), 1, 5)];
    insert_newest_first(&mut files, LibraryFile::new("c".to_string(), 1, 5));
    insert_newest_first(&mut files, LibraryFile::new("d".to_string(), 1, 10));
    let names: Vec<String> = files.iter().map(|f| f.name.clone()).collect();
    assert_eq!(names, vec!["d", "a", "b", "c"]);
}

#[test]
fn present_file_passes_guard() {
    assert!(require_present("a.aif-bin", true).is_ok());
}

#[test]
fn missing_file_is_not_found() {
    let e = require_present("gone.aif-bin", false).unwrap_err();
    assert_eq!(e.kind(), ErrorKind::NotFound);
    assert_eq!(e.message(), "File not found: gone.aif-bin");
}

#[test]
fn rename_to_free_name_passes_guard() {
    assert!(check_rename("a.aif-bin", "b.aif-bin", true, false).is_ok());
}

#[test]
fn rename_of_missing_source_is_not_found() {
    let e = check_rename("a.aif-bin", "b.aif-bin", false, true).unwrap_err();
    assert_eq!(e.kind(), ErrorKind::NotFound);
    assert_eq!(e.message(), "File not found: a.aif-bin");
}

#[test]
fn rename_onto_taken_name_already_exists() {
    let e = check_rename("a.aif-bin", "b.aif-bin", true, true).unwrap_err();
    assert_eq!(e.kind(), ErrorKind::AlreadyExists);
    assert_eq!(e.message(), "File already exists: b.aif-bin");
}

#[test]
fn io_error_messages_name_the_step() {
    let cases = [
        (IoStep::CreateLibrary, "Failed to create library: denied"),
        (IoStep::ReadLibrary, "Failed to read library: denied"),
        (IoStep::SaveFile, "Failed to save file: denied"),
        (IoStep::ReadFile, "Failed to read file: denied"),
        (IoStep::DeleteFile, "Failed to delete file: denied"),
        (IoStep::Rename, "Failed to rename: denied"),
        (IoStep::Export, "Failed to export: denied"),
    ];
    for (step, expected) in cases {
        let e = LibraryError::Io(step, "denied".to_string());
        assert_eq!(e.kind(), ErrorKind::Io);
        assert_eq!(e.message(), expected);
    }
}

#[test]
fn library_file_new_keeps_fields() {
    let f = LibraryFile::new("a.aif-bin".to_string(), 3, 42);
    assert_eq!((f.name.as_str(), f.size, f.modified), ("a.aif-bin", 3, 42));
}
