use tbr::paths::{
    archive_extension, decompression_target, final_path_segment, scratch_archive_path,
};
use tbr::ArchiveError;

#[test]
fn final_segment_of_nested_path() {
    assert_eq!(final_path_segment("some/dir/archive.tar").unwrap(), "archive.tar");
    assert_eq!(final_path_segment("archive.tar").unwrap(), "archive.tar");
}

#[test]
fn final_segment_missing() {
    assert_eq!(final_path_segment("some/dir/"), None);
    assert_eq!(final_path_segment(""), None);
    assert_eq!(final_path_segment("some/.."), None);
    assert_eq!(final_path_segment("."), None);
}

#[test]
fn scratch_path_is_named_after_the_archive() {
    assert_eq!(
        scratch_archive_path("/tmp/scratch", "some/dir/archive.tar").unwrap(),
        "/tmp/scratch/archive.tar"
    );
}

#[test]
fn scratch_path_needs_an_archive_name() {
    assert_eq!(
        scratch_archive_path("/tmp/scratch", "some/dir/"),
        Err(ArchiveError::DataEncoding)
    );
}

#[test]
fn extensions_are_read_from_the_final_segment() {
    assert_eq!(archive_extension("archive.tar").unwrap(), "tar");
    assert_eq!(archive_extension("dir.tar/archive.zip").unwrap(), "zip");
    assert_eq!(archive_extension("notes.txt.br").unwrap(), "br");
}

#[test]
fn hidden_and_bare_names_have_no_extension() {
    assert_eq!(archive_extension("does_not_exist"), None);
    assert_eq!(archive_extension(".renovaterc"), None);
    assert_eq!(archive_extension("dir.d/plain"), None);
}

#[test]
fn decompression_strips_the_suffix() {
    assert_eq!(decompression_target("/tmp/out", "LICENSE.br"), "/tmp/outLICENSE");
    assert_eq!(decompression_target("/tmp/out/", "LICENSE.br"), "/tmp/out/LICENSE");
    assert_eq!(decompression_target("/tmp/out/", "LICENSE"), "/tmp/out/LICENSE");
    assert_eq!(decompression_target("", ".br"), "");
}

#[test]
fn error_conditions_have_messages() {
    assert_eq!(ArchiveError::NotFound.message(), "the archive does not exist");
    assert_eq!(ArchiveError::Io.message(), "an input / output operation failed");
    assert_eq!(ArchiveError::DataEncoding.message(), "a path could not be encoded");
    assert_eq!(ArchiveError::ScratchUnavailable.message(), "no scratch space is available");
    assert_eq!(ArchiveError::Usage.message(), "the archive path is not usable");
}
