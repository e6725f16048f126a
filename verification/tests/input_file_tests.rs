//! File input construction and chunked reads.

use appwrite::{AppwriteError, InputFile};

#[test]
fn from_bytes_keeps_the_buffer_and_metadata() {
    let f = InputFile::from_bytes(vec![1, 2, 3], "data.bin", Some("application/octet-stream".to_string()));
    assert_eq!(f.filename(), "data.bin");
    assert_eq!(f.mime_type(), Some("application/octet-stream"));
    assert_eq!(f.size().unwrap(), 3);
    assert_eq!(f.read_data().unwrap(), vec![1, 2, 3]);
}

#[test]
fn read_chunk_past_the_end_is_empty_not_an_error() {
    let f = InputFile::from_bytes(vec![1, 2, 3, 4], "d", None);
    assert_eq!(f.read_chunk(4, 10).unwrap(), Vec::<u8>::new());
    assert_eq!(f.read_chunk(100, 1).unwrap(), Vec::<u8>::new());
}

#[test]
fn read_chunk_is_clamped_to_the_buffer() {
    let f = InputFile::from_bytes(vec![10, 20, 30, 40, 50], "d", None);
    assert_eq!(f.read_chunk(0, 2).unwrap(), vec![10, 20]);
    assert_eq!(f.read_chunk(2, 2).unwrap(), vec![30, 40]);
    assert_eq!(f.read_chunk(3, 10).unwrap(), vec![40, 50]);
    assert_eq!(f.read_chunk(0, 0).unwrap(), Vec::<u8>::new());
}

#[test]
fn from_path_extracts_filename_and_guesses_mime() {
    let f = InputFile::from_path("/tmp/photos/picture.png").unwrap();
    assert_eq!(f.filename(), "picture.png");
    assert_eq!(f.mime_type(), Some("image/png"));
    assert_eq!(f.path.as_deref(), Some("/tmp/photos/picture.png"));
}

#[test]
fn from_path_without_extension_has_no_mime() {
    let f = InputFile::from_path("dir/README").unwrap();
    assert_eq!(f.filename(), "README");
    assert_eq!(f.mime_type(), None);
}

#[test]
fn from_path_rejects_an_empty_final_component() {
    match InputFile::from_path("some/dir/") {
        Err(AppwriteError::FileError(m)) => assert_eq!(m, "Invalid filename"),
        _ => panic!("expected a file error"),
    }
}

#[test]
fn overrides_replace_filename_and_mime() {
    let f = InputFile::from_bytes(vec![], "old", None)
        .set_filename("new")
        .set_mime_type(Some("text/plain".to_string()));
    assert_eq!(f.filename(), "new");
    assert_eq!(f.mime_type(), Some("text/plain"));
}
