use std::io::Cursor;
use std::io::Write;

use resuma_core::archive::ExtractError;
use resuma_core::archive::FsAction;
use resuma_core::archive::plan_extraction;
use resuma_core::fsmodel::FsState;
use resuma_core::fsmodel::extract_into;

/// Build an in-memory zip holding directory entries followed by file
/// entries inside those directories.
fn sample_zip(entries: &[(&str, Option<&[u8]>)]) -> Vec<u8> {
    let options = zip::write::SimpleFileOptions::default();
    let mut writer = zip::ZipWriter::new(Cursor::new(Vec::new()));
    for (name, data) in entries {
        match data {
            None => {
                writer.add_directory(name.to_string(), options).unwrap();
            }
            Some(bytes) => {
                writer.start_file(name.to_string(), options).unwrap();
                writer.write_all(bytes).unwrap();
            }
        }
    }
    writer.finish().unwrap().into_inner()
}

#[test]
fn plan_lists_the_exact_actions_in_archive_order() {
    let bytes = sample_zip(&[
        ("docs", None),
        ("docs/readme.txt", Some(b"hello")),
        ("top.bin", Some(&[1u8, 2, 3])),
    ]);
    let plan = plan_extraction(bytes, "/dest", "/dest/a.zip").unwrap();
    assert_eq!(plan.len(), 6);
    match &plan[0] {
        FsAction::MkDirAll(p) => assert_eq!(p, "/dest/docs"),
        _ => panic!("expected a directory creation"),
    }
    match &plan[1] {
        FsAction::MkDirAll(p) => assert_eq!(p, "/dest/docs"),
        _ => panic!("expected a parent directory creation"),
    }
    match &plan[2] {
        FsAction::WriteFile(p, d) => {
            assert_eq!(p, "/dest/docs/readme.txt");
            assert_eq!(d.as_slice(), b"hello");
        }
        _ => panic!("expected a file write"),
    }
    match &plan[3] {
        FsAction::MkDirAll(p) => assert_eq!(p, "/dest"),
        _ => panic!("expected a parent directory creation"),
    }
    match &plan[4] {
        FsAction::WriteFile(p, d) => {
            assert_eq!(p, "/dest/top.bin");
            assert_eq!(d.as_slice(), &[1u8, 2, 3]);
        }
        _ => panic!("expected a file write"),
    }
    match &plan[5] {
        FsAction::RemoveFile(p) => assert_eq!(p, "/dest/a.zip"),
        _ => panic!("expected the archive removal"),
    }
}

#[test]
fn extraction_round_trip_reproduces_the_file_tree() {
    let bytes = sample_zip(&[
        ("a", None),
        ("a/b", None),
        ("a/b/deep.txt", Some(b"deep contents")),
        ("a/top.txt", Some(b"top contents")),
    ]);
    let mut fs = FsState::new();
    fs.create_dir_all("/dest");
    fs.write_file("/dest/pkg.zip", bytes.clone());
    let plan = plan_extraction(bytes, "/dest", "/dest/pkg.zip").unwrap();
    fs.apply_all(plan);
    assert_eq!(fs.read_file("/dest/a/b/deep.txt").unwrap().as_slice(), b"deep contents");
    assert_eq!(fs.read_file("/dest/a/top.txt").unwrap().as_slice(), b"top contents");
    assert!(fs.dir_exists("/dest/a"));
    assert!(fs.dir_exists("/dest/a/b"));
    assert!(!fs.dir_exists("/dest/missing"));
}

#[test]
fn archive_is_removed_after_successful_extraction() {
    let bytes = sample_zip(&[("f.txt", Some(b"x"))]);
    let mut fs = FsState::new();
    fs.write_file("/dest/pkg.zip", bytes.clone());
    assert!(fs.file_exists("/dest/pkg.zip"));
    let plan = plan_extraction(bytes, "/dest", "/dest/pkg.zip").unwrap();
    fs.apply_all(plan);
    assert!(!fs.file_exists("/dest/pkg.zip"));
    assert!(fs.file_exists("/dest/f.txt"));
}

#[test]
fn corrupt_archive_fails_and_leaves_the_archive_in_place() {
    let bytes = vec![0u8, 1, 2, 3, 4, 5, 6, 7];
    let mut fs = FsState::new();
    fs.write_file("/dest/pkg.zip", bytes.clone());
    let r = extract_into(&mut fs, bytes, "/dest", "/dest/pkg.zip");
    match r {
        Err(ExtractError::ArchiveOpen(_)) => {}
        _ => panic!("expected an archive-open failure"),
    }
    assert!(fs.file_exists("/dest/pkg.zip"));
}

#[test]
fn extraction_overwrites_a_preexisting_file() {
    let bytes = sample_zip(&[("same.txt", Some(b"new contents"))]);
    let mut fs = FsState::new();
    fs.write_file("/d/same.txt", b"old contents".to_vec());
    let plan = plan_extraction(bytes, "/d", "/d/z.zip").unwrap();
    fs.apply_all(plan);
    assert_eq!(fs.read_file("/d/same.txt").unwrap().as_slice(), b"new contents");
}

#[test]
fn a_corrupt_entry_fails_as_an_entry_error() {
    // stored (uncompressed) entries keep their bytes verbatim, so the entry
    // data can be corrupted without touching the central directory
    let options = zip::write::SimpleFileOptions::default()
        .compression_method(zip::CompressionMethod::Stored);
    let mut writer = zip::ZipWriter::new(Cursor::new(Vec::new()));
    writer.start_file("payload.bin", options).unwrap();
    writer.write_all(b"PAYLOADPAYLOADPAYLOAD").unwrap();
    let mut bytes = writer.finish().unwrap().into_inner();
    let at = bytes
        .windows(7)
        .position(|w| w == b"PAYLOAD")
        .expect("the stored bytes must appear verbatim");
    bytes[at] ^= 0xff;
    match plan_extraction(bytes, "/d", "/d/z.zip") {
        Err(ab) => match ab.error {
            ExtractError::ArchiveEntry(_) => assert!(ab.prefix.is_empty()),
            ExtractError::ArchiveOpen(_) => panic!("the central directory is intact"),
        },
        Ok(_) => panic!("expected the corrupted entry to fail"),
    }
}

#[test]
fn a_failing_entry_keeps_the_entries_before_it() {
    // first entry intact, second entry's stored bytes corrupted: extraction
    // aborts at the second entry, the first stays materialized, nothing is
    // rolled back, and the archive file is still in place
    let options = zip::write::SimpleFileOptions::default()
        .compression_method(zip::CompressionMethod::Stored);
    let mut writer = zip::ZipWriter::new(Cursor::new(Vec::new()));
    writer.start_file("keep.txt", options).unwrap();
    writer.write_all(b"KEEPKEEPKEEP").unwrap();
    writer.start_file("broken.bin", options).unwrap();
    writer.write_all(b"BREAKBREAKBREAK").unwrap();
    let mut bytes = writer.finish().unwrap().into_inner();
    let at = bytes
        .windows(10)
        .position(|w| w == b"BREAKBREAK")
        .expect("the stored bytes must appear verbatim");
    bytes[at] ^= 0xff;

    let mut fs = FsState::new();
    fs.create_dir_all("/dest");
    fs.write_file("/dest/pkg.zip", bytes.clone());
    match extract_into(&mut fs, bytes, "/dest", "/dest/pkg.zip") {
        Err(ExtractError::ArchiveEntry(_)) => {}
        Err(ExtractError::ArchiveOpen(_)) => panic!("the central directory is intact"),
        Ok(()) => panic!("expected the corrupted entry to fail"),
    }
    assert_eq!(fs.read_file("/dest/keep.txt").unwrap().as_slice(), b"KEEPKEEPKEEP");
    assert!(!fs.file_exists("/dest/broken.bin"));
    assert!(fs.file_exists("/dest/pkg.zip"));
}

#[test]
fn parent_directory_components_cannot_escape_the_destination() {
    // write an entry under a two-byte directory name, then patch that name
    // to `..` wherever it is stored (local header and central directory);
    // entry names are not covered by the data checksum, so the archive stays
    // valid and now carries a traversal attempt
    let options = zip::write::SimpleFileOptions::default()
        .compression_method(zip::CompressionMethod::Stored);
    let mut writer = zip::ZipWriter::new(Cursor::new(Vec::new()));
    writer.start_file("zz/evil.txt", options).unwrap();
    writer.write_all(b"evil").unwrap();
    let mut bytes = writer.finish().unwrap().into_inner();
    let positions: Vec<usize> = bytes
        .windows(11)
        .enumerate()
        .filter(|(_, w)| *w == b"zz/evil.txt")
        .map(|(i, _)| i)
        .collect();
    assert!(!positions.is_empty());
    for i in positions {
        bytes[i] = b'.';
        bytes[i + 1] = b'.';
    }
    let plan = plan_extraction(bytes, "/dest", "/dest/z.zip").unwrap();
    match &plan[1] {
        FsAction::WriteFile(p, d) => {
            assert_eq!(p, "/dest/evil.txt");
            assert_eq!(d.as_slice(), b"evil");
        }
        _ => panic!("expected a file write"),
    }
}

#[test]
fn an_empty_archive_plans_only_its_own_removal() {
    let bytes = sample_zip(&[]);
    let plan = plan_extraction(bytes, "/d", "/d/empty.zip").unwrap();
    assert_eq!(plan.len(), 1);
    match &plan[0] {
        FsAction::RemoveFile(p) => assert_eq!(p, "/d/empty.zip"),
        _ => panic!("expected the archive removal"),
    }
}

#[test]
fn extraction_error_message_is_exposed() {
    let bytes = vec![9u8; 4];
    match plan_extraction(bytes, "/d", "/d/z.zip") {
        Err(ab) => {
            assert!(!ab.error.message().is_empty());
            assert!(ab.prefix.is_empty());
        }
        Ok(_) => panic!("expected a failure"),
    }
}
