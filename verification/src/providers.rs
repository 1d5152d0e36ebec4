//! Provider-level dispatch: which archive backend serves a candidate path.
//!
//! The recognized extensions are a closed, case-sensitive set: `zip` and
//! `cbz` select the ZIP backend, `rar` and `cbr` the RAR backend.  Anything
//! else — including a missing extension — is rejected with
//! [`ProviderError::InvalidArchiveType`].

use crate::paths::base_name;
use crate::paths::ext_of_name;
use crate::paths::extension_part;
use crate::paths::file_name_part;
use vstd::prelude::*;
use vstd::string::StrSliceExecFns;

verus! {

/// Rejection of a candidate path at the provider boundary.
#[derive(Clone, Copy, Debug, PartialEq, Eq, Structural)]
pub enum ProviderError {
    /// The path's extension is not one of the recognized archive extensions.
    InvalidArchiveType,
}

/// The two supported archive families.
#[derive(Clone, Copy, Debug, PartialEq, Eq, Structural)]
pub enum ArchiveKind {
    /// ZIP containers: extensions `zip` and `cbz`.
    Zip,
    /// RAR containers: extensions `rar` and `cbr`.
    Rar,
}

/// One candidate archive: its path and the raw bytes of its container file.
#[derive(Debug)]
pub struct ArchiveSource {
    /// The path the archive came from; only its final component matters.
    pub path: String,
    /// The container file's bytes.
    pub data: Vec<u8>,
}

/// The backend an extension selects, if any.
pub open spec fn kind_of_ext(e: Seq<char>) -> Option<ArchiveKind> {
    if e == seq!['z', 'i', 'p'] || e == seq!['c', 'b', 'z'] {
        Some(ArchiveKind::Zip)
    } else if e == seq!['r', 'a', 'r'] || e == seq!['c', 'b', 'r'] {
        Some(ArchiveKind::Rar)
    } else {
        None
    }
}

/// The backend a path selects, if its final component has a recognized
/// extension.
pub open spec fn kind_of(path: Seq<char>) -> Option<ArchiveKind> {
    match ext_of_name(base_name(path)) {
        Some(e) => kind_of_ext(e),
        None => None,
    }
}

/// Determines the archive backend for `path`, rejecting unrecognized
/// extensions.
pub fn archive_kind(path: &str) -> (r: Result<ArchiveKind, ProviderError>)
    ensures
        r matches Ok(k) ==> kind_of(path@) == Some(k),
        r matches Err(e) ==> e == ProviderError::InvalidArchiveType && kind_of(path@) is None,
{
    let name = file_name_part(path);
    match extension_part(name.as_str()) {
        None => Err(ProviderError::InvalidArchiveType),
        Some(e) => {
            let es = e.as_str();
            if es.unicode_len() != 3 {
                assert(e@ != seq!['z', 'i', 'p'] && e@ != seq!['c', 'b', 'z'] && e@ != seq![
                    'r',
                    'a',
                    'r',
                ] && e@ != seq!['c', 'b', 'r']);
                return Err(ProviderError::InvalidArchiveType);
            }
            let c0 = es.get_char(0);
            let c1 = es.get_char(1);
            let c2 = es.get_char(2);
            if c0 == 'z' && c1 == 'i' && c2 == 'p' {
                assert(e@ =~= seq!['z', 'i', 'p']);
                Ok(ArchiveKind::Zip)
            } else if c0 == 'c' && c1 == 'b' && c2 == 'z' {
                assert(e@ =~= seq!['c', 'b', 'z']);
                Ok(ArchiveKind::Zip)
            } else if c0 == 'r' && c1 == 'a' && c2 == 'r' {
                assert(e@ =~= seq!['r', 'a', 'r']);
                Ok(ArchiveKind::Rar)
            } else if c0 == 'c' && c1 == 'b' && c2 == 'r' {
                assert(e@ =~= seq!['c', 'b', 'r']);
                Ok(ArchiveKind::Rar)
            } else {
                Err(ProviderError::InvalidArchiveType)
            }
        },
    }
}

} // verus!
