use star::args::{handle_filename, parse_create_type};
use star::error::ArchiveError;
use star::kind::{detect_archive_type, output_file_name, ArchiveType};
use std::path::Path;

fn by_std(path: &str) -> ArchiveType {
    match Path::new(path).extension().and_then(|ext| ext.to_str()) {
        Some("gz") => ArchiveType::Gz,
        Some("xz") => ArchiveType::Xz,
        Some("bz2") => ArchiveType::Bz2,
        _ => ArchiveType::Unknown,
    }
}

#[test]
fn detects_the_three_known_extensions() {
    assert_eq!(detect_archive_type("report-2023.tar.gz"), ArchiveType::Gz);
    assert_eq!(detect_archive_type("report-old.tar.xz"), ArchiveType::Xz);
    assert_eq!(detect_archive_type("dir/backup.tar.bz2"), ArchiveType::Bz2);
}

#[test]
fn a_name_without_known_extension_is_unknown() {
    assert_eq!(detect_archive_type("notes.txt"), ArchiveType::Unknown);
    assert_eq!(detect_archive_type("archive"), ArchiveType::Unknown);
    assert_eq!(detect_archive_type(""), ArchiveType::Unknown);
    assert_eq!(detect_archive_type("archive.zip"), ArchiveType::Unknown);
    assert_eq!(detect_archive_type("archive.GZ"), ArchiveType::Unknown);
    assert_eq!(detect_archive_type("archive.gz.bak"), ArchiveType::Unknown);
}

#[test]
fn a_leading_dot_is_no_extension() {
    assert_eq!(detect_archive_type(".gz"), ArchiveType::Unknown);
    assert_eq!(detect_archive_type("dir/.xz"), ArchiveType::Unknown);
    assert_eq!(detect_archive_type("..gz"), ArchiveType::Gz);
    assert_eq!(detect_archive_type("a..bz2"), ArchiveType::Bz2);
}

#[test]
fn the_extension_is_that_of_the_last_component() {
    assert_eq!(detect_archive_type("dir.gz/notes.txt"), ArchiveType::Unknown);
    assert_eq!(detect_archive_type("dir.gz/"), ArchiveType::Gz);
    assert_eq!(detect_archive_type("dir.gz/."), ArchiveType::Gz);
    assert_eq!(detect_archive_type("dir.gz/.."), ArchiveType::Unknown);
    assert_eq!(detect_archive_type("/abs/x.tar.xz//"), ArchiveType::Xz);
}

#[test]
fn detection_agrees_with_the_standard_path() {
    let paths = [
        "a.gz", "a.xz", "a.bz2", "a.tar.gz", "a", "", ".", "..", "/", "//", ".gz", "..gz", "a.",
        "a.gz.", "a/b.gz", "a/b.gz/", "a/b.gz//", "a/b.gz/.", "a/b.gz/./", "a/b.gz/..", "./a.xz",
        "./.xz", "a.b/c", "a.gz/c", "/a.bz2", "/.bz2", "a.gzz", "a.g", "gz", "a.tar.bz2 ",
        " a.gz", "a.b.c.xz", "ü.gz", "a.güz", "a/./b.xz", "a//b.xz", "a.xz/./.",
    ];
    for path in paths {
        assert_eq!(detect_archive_type(path), by_std(path), "{:?}", path);
    }
}

#[test]
fn create_types_are_gz_xz_and_bz2() {
    assert_eq!(parse_create_type("gz"), Ok(ArchiveType::Gz));
    assert_eq!(parse_create_type("xz"), Ok(ArchiveType::Xz));
    assert_eq!(parse_create_type("bz2"), Ok(ArchiveType::Bz2));
}

#[test]
fn an_unsupported_create_type_is_refused() {
    assert_eq!(parse_create_type("zip"), Err(ArchiveError::UnsupportedType));
    assert_eq!(parse_create_type(""), Err(ArchiveError::UnsupportedType));
    assert_eq!(parse_create_type("GZ"), Err(ArchiveError::UnsupportedType));
    assert_eq!(parse_create_type("tar.gz"), Err(ArchiveError::UnsupportedType));
    assert_eq!(parse_create_type("bz"), Err(ArchiveError::UnsupportedType));
}

#[test]
fn the_output_file_is_named_after_the_kind() {
    assert_eq!(output_file_name("photos", ArchiveType::Gz), Ok("photos.tar.gz".to_string()));
    assert_eq!(output_file_name("photos", ArchiveType::Xz), Ok("photos.tar.xz".to_string()));
    assert_eq!(output_file_name("photos", ArchiveType::Bz2), Ok("photos.tar.bz2".to_string()));
    assert_eq!(output_file_name(" a b ", ArchiveType::Gz), Ok(" a b .tar.gz".to_string()));
    assert_eq!(output_file_name("", ArchiveType::Bz2), Ok(".tar.bz2".to_string()));
}

#[test]
fn no_output_file_is_named_for_an_unknown_kind() {
    assert_eq!(
        output_file_name("photos", ArchiveType::Unknown),
        Err(ArchiveError::UnknownArchiveType)
    );
}

#[test]
fn only_unknown_is_not_known() {
    assert!(ArchiveType::Gz.is_known());
    assert!(ArchiveType::Xz.is_known());
    assert!(ArchiveType::Bz2.is_known());
    assert!(!ArchiveType::Unknown.is_known());
}

#[test]
fn a_missing_file_argument_is_an_error() {
    assert_eq!(handle_filename(None), Err(ArchiveError::MissingFile));
    let name = "backup.tar.gz".to_string();
    assert_eq!(handle_filename(Some(&name)), Ok("backup.tar.gz".to_string()));
}
