//! Name ordering and backend dispatch.

use comik::order::str_le;
use comik::providers::{archive_kind, ArchiveKind, ProviderError};

#[test]
fn name_order_is_byte_lexicographic() {
    assert!(str_le("a.png", "b.jpg"));
    assert!(!str_le("b.jpg", "a.png"));
    assert!(str_le("a.png", "a.png"));
    assert!(str_le("ab", "abc"));
    assert!(!str_le("abc", "ab"));
    assert!(str_le("", "anything"));
    assert!(str_le("Z", "a"));
    assert!(!str_le("a", "Z"));
    assert!(str_le("page09", "page10"));
}

#[test]
fn recognized_extensions_pick_their_backend() {
    assert_eq!(archive_kind("a.zip").unwrap(), ArchiveKind::Zip);
    assert_eq!(archive_kind("a.cbz").unwrap(), ArchiveKind::Zip);
    assert_eq!(archive_kind("a.rar").unwrap(), ArchiveKind::Rar);
    assert_eq!(archive_kind("a.cbr").unwrap(), ArchiveKind::Rar);
    assert_eq!(archive_kind("dir.zip/a.cbr").unwrap(), ArchiveKind::Rar);
    assert_eq!(archive_kind("a.tar.cbz").unwrap(), ArchiveKind::Zip);
    assert_eq!(archive_kind("a.zip/").unwrap(), ArchiveKind::Zip);
    assert_eq!(archive_kind("dir/a.cbz//").unwrap(), ArchiveKind::Zip);
}

#[test]
fn anything_else_is_an_invalid_archive_type() {
    assert_eq!(archive_kind("a.txt").unwrap_err(), ProviderError::InvalidArchiveType);
    assert_eq!(archive_kind("a.Zip").unwrap_err(), ProviderError::InvalidArchiveType);
    assert_eq!(archive_kind("azip").unwrap_err(), ProviderError::InvalidArchiveType);
    assert_eq!(archive_kind("").unwrap_err(), ProviderError::InvalidArchiveType);
    assert_eq!(archive_kind(".cbz").unwrap_err(), ProviderError::InvalidArchiveType);
    assert_eq!(archive_kind("dir.zip/file").unwrap_err(), ProviderError::InvalidArchiveType);
    assert_eq!(archive_kind("/").unwrap_err(), ProviderError::InvalidArchiveType);
}
