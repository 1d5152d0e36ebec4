//! Comic-book archive reader: opens ZIP/CBZ and RAR/CBR archives, lists the
//! entries they hold, orders them by entry name, and decodes individual pages
//! into raster images.
//!
//! The crate is organised as a small provider hierarchy: a
//! [`collection::ComicCollection`] owns the comics built from a set of
//! candidate archives, each [`comic::Comic`] owns its ordered pages, and each
//! [`comic::Page`] carries one entry's name and raw bytes and can decode them
//! on demand.  Archive containers and image codecs are read through the
//! `zip`, `unrar` and `image` crates; everything around those calls is
//! verified.

pub mod backend;
pub mod collection;
pub mod comic;
pub mod decode;
pub mod order;
pub mod paths;
pub mod providers;
