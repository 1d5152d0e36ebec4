//! Opening single archives: backend dispatch, page ordering, error
//! classification.

use comik::comic::{Comic, ComicError};
use std::io::Write;

fn make_zip(entries: &[(&str, &[u8])]) -> Vec<u8> {
    let mut writer = zip::ZipWriter::new(std::io::Cursor::new(Vec::new()));
    for (name, data) in entries {
        let options = zip::write::SimpleFileOptions::default();
        writer.start_file(*name, options).unwrap();
        writer.write_all(data).unwrap();
    }
    writer.finish().unwrap().into_inner()
}

/// A minimal valid RAR container holding one entry named `VERSION` whose
/// content is the eleven bytes `unrar-0.4.0`.
fn rar_fixture() -> Vec<u8> {
    vec![
        0x52, 0x61, 0x72, 0x21, 0x1a, 0x07, 0x00, 0xcf, 0x90, 0x73, 0x00, 0x00, 0x0d, 0x00, 0x00,
        0x00, 0x00, 0x00, 0x00, 0x00, 0x0f, 0x0c, 0x74, 0x20, 0x80, 0x27, 0x00, 0x15, 0x00, 0x00,
        0x00, 0x0b, 0x00, 0x00, 0x00, 0x03, 0x45, 0xf3, 0x7d, 0xc6, 0xa4, 0x8a, 0x07, 0x47, 0x1d,
        0x33, 0x07, 0x00, 0xa4, 0x81, 0x00, 0x00, 0x56, 0x45, 0x52, 0x53, 0x49, 0x4f, 0x4e, 0x0c,
        0x00, 0x8f, 0xec, 0x8a, 0x45, 0xcc, 0x23, 0xc8, 0x48, 0x08, 0x83, 0x62, 0xfe, 0x5f, 0xdd,
        0x5c, 0x53, 0x88, 0xf0, 0x72, 0xc4, 0x3d, 0x7b, 0x00, 0x40, 0x07, 0x00,
    ]
}

#[test]
fn zip_pages_come_sorted_by_entry_name() {
    let data = make_zip(&[("b.jpg", b"bb"), ("a.png", b"aa"), ("c.png", b"cc")]);
    let comic = Comic::from_archive("book.zip", &data).unwrap();
    assert_eq!(comic.length(), 3);
    assert_eq!(comic.page(0).unwrap().file_name().as_str(), "a.png");
    assert_eq!(comic.page(1).unwrap().file_name().as_str(), "b.jpg");
    assert_eq!(comic.page(2).unwrap().file_name().as_str(), "c.png");
}

#[test]
fn zip_entry_bytes_survive_the_round_trip() {
    let data = make_zip(&[("b.jpg", b"bb"), ("a.png", b"aa")]);
    let comic = Comic::from_archive("book.cbz", &data).unwrap();
    assert_eq!(comic.page(0).unwrap().bytes().as_slice(), b"aa");
    assert_eq!(comic.page(1).unwrap().bytes().as_slice(), b"bb");
}

#[test]
fn title_is_the_base_name_with_extension() {
    let data = make_zip(&[("p", b"x")]);
    let comic = Comic::from_archive("some/dir/My Comic.cbz", &data).unwrap();
    assert_eq!(comic.title().as_str(), "My Comic.cbz");
}

#[test]
fn trailing_separators_are_ignored() {
    let data = make_zip(&[("p", b"x")]);
    let comic = Comic::from_archive("some/dir/book.cbz/", &data).unwrap();
    assert_eq!(comic.title().as_str(), "book.cbz");
}

#[test]
fn unrecognized_extension_is_rejected() {
    let data = make_zip(&[("p", b"x")]);
    assert_eq!(
        Comic::from_archive("book.tar", &data).unwrap_err(),
        ComicError::InvalidArchiveType
    );
    assert_eq!(
        Comic::from_archive("book", &data).unwrap_err(),
        ComicError::InvalidArchiveType
    );
    assert_eq!(
        Comic::from_archive("book.ZIP", &data).unwrap_err(),
        ComicError::InvalidArchiveType
    );
    assert_eq!(
        Comic::from_archive(".zip", &data).unwrap_err(),
        ComicError::InvalidArchiveType
    );
}

#[test]
fn garbage_zip_container_is_unreadable() {
    let err = Comic::from_archive("bad.zip", b"this is not a zip file").unwrap_err();
    assert_eq!(err, ComicError::UnreadableArchive);
}

#[test]
fn truncated_zip_container_fails_cleanly() {
    let data = make_zip(&[("a.png", b"some content here")]);
    let cut = &data[..data.len() / 2];
    let err = Comic::from_archive("cut.zip", cut).unwrap_err();
    assert!(err == ComicError::UnreadableArchive || err == ComicError::ExtractionFailed);
}

#[test]
fn rar_fixture_opens_with_its_entry() {
    let data = rar_fixture();
    let comic = Comic::from_archive("version.rar", &data).unwrap();
    assert_eq!(comic.length(), 1);
    assert_eq!(comic.page(0).unwrap().file_name().as_str(), "VERSION");
    assert_eq!(comic.page(0).unwrap().bytes().as_slice(), b"unrar-0.4.0");
}

#[test]
fn garbage_rar_container_fails_cleanly() {
    let err = Comic::from_archive("bad.cbr", b"this is not a rar file").unwrap_err();
    assert!(err == ComicError::UnreadableArchive || err == ComicError::ExtractionFailed);
}

#[test]
fn out_of_range_page_is_none_not_an_error() {
    let data = make_zip(&[("a.png", b"aa")]);
    let comic = Comic::from_archive("one.zip", &data).unwrap();
    assert!(comic.page(0).is_some());
    assert!(comic.page(1).is_none());
    assert!(comic.page(usize::MAX).is_none());
}

#[test]
fn entry_names_keep_their_subdirectories() {
    let data = make_zip(&[("b/1.png", b"b1"), ("a/2.png", b"a2")]);
    let comic = Comic::from_archive("book.zip", &data).unwrap();
    assert_eq!(comic.length(), 2);
    assert_eq!(comic.page(0).unwrap().file_name().as_str(), "a/2.png");
    assert_eq!(comic.page(1).unwrap().file_name().as_str(), "b/1.png");
}

#[test]
fn empty_zip_yields_zero_pages() {
    let data = make_zip(&[]);
    let comic = Comic::from_archive("empty.zip", &data).unwrap();
    assert_eq!(comic.length(), 0);
    assert!(comic.page(0).is_none());
}
