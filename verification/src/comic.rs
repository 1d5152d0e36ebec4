//! One opened comic: its title and its ordered pages.
//!
//! [`Comic::from_archive`] selects the backend by the path's extension,
//! lists and unpacks the container's entries, builds one [`Page`] per entry
//! and sorts the pages by entry name.  The pages of a successfully opened
//! comic are exactly the container's entries — [`Comic::comic_from`] pins
//! the order and, for ZIP containers, names and bytes; for RAR containers
//! it pins the bytes, since the unrar library does not report entry names
//! reproducibly.

use crate::backend::data_views;
use crate::backend::entry_views;
use crate::backend::listable;
use crate::backend::rar_entries;
use crate::backend::rar_entries_of;
use crate::backend::zip_entries;
use crate::backend::zip_entries_of;
use crate::decode::decode_image;
use crate::decode::decode_result_matches;
use crate::decode::DecodedImage;
use crate::order::lemma_lex_le_refl;
use crate::order::lemma_lex_le_total;
use crate::order::lemma_lex_le_trans;
use crate::order::lex_le;
use crate::order::str_le;
use crate::paths::base_name;
use crate::paths::file_name_part;
use crate::providers::archive_kind;
use crate::providers::kind_of;
use crate::providers::ArchiveKind;
use vstd::prelude::*;

verus! {

broadcast use vstd::seq_lib::group_to_multiset_ensures;

/// Everything that can go wrong between a candidate path and a decoded
/// page.
#[derive(Clone, Copy, Debug, PartialEq, Eq, Structural)]
pub enum ComicError {
    /// The path's extension is not one of the recognized archive
    /// extensions.
    InvalidArchiveType,
    /// The container file exists but its format cannot be parsed.
    UnreadableArchive,
    /// An entry could not be unpacked from the container.
    ExtractionFailed,
    /// A page's content is in no codec the decoder knows.
    UnsupportedImageFormat,
    /// A page's content is in a known codec but cannot be decoded.
    CorruptImageData,
}

/// One page of a comic: an entry's name and its unpacked bytes, decodable
/// on demand.
#[derive(Debug)]
pub struct Page {
    file_name: String,
    data: Vec<u8>,
}

impl Page {
    /// The entry name this page was built from.
    pub closed spec fn name_spec(&self) -> Seq<char> {
        self.file_name@
    }

    /// The unpacked entry bytes this page was built from.
    pub closed spec fn data_spec(&self) -> Seq<u8> {
        self.data@
    }

    /// Builds a page from one archive entry.
    pub fn new(file_name: String, data: Vec<u8>) -> (r: Page)
        ensures
            r.name_spec() == file_name@,
            r.data_spec() == data@,
    {
        Page { file_name, data }
    }

    /// The original in-archive entry name.
    pub fn file_name(&self) -> (r: &String)
        ensures
            r@ == self.name_spec(),
    {
        &self.file_name
    }

    /// The unpacked entry bytes the page would decode.
    pub fn bytes(&self) -> (r: &Vec<u8>)
        ensures
            r@ == self.data_spec(),
    {
        &self.data
    }

    /// Decodes the page into a raster image.  The result is a function of
    /// the page's bytes alone, so repeated calls return identical pixels.
    pub fn image(&self) -> (r: Result<DecodedImage, ComicError>)
        ensures
            decode_result_matches(self.data_spec(), r),
    {
        decode_image(self.data.as_slice())
    }

    /// The entry this page was built from: its name and bytes.
    pub open spec fn entry_view(&self) -> (Seq<char>, Seq<u8>) {
        (self.name_spec(), self.data_spec())
    }
}

/// The entries a sequence of pages was built from.
pub open spec fn page_views(pages: Seq<Page>) -> Seq<(Seq<char>, Seq<u8>)> {
    pages.map_values(|p: Page| p.entry_view())
}

/// The byte payloads of a sequence of pages.
pub open spec fn page_data_views(pages: Seq<Page>) -> Seq<Seq<u8>> {
    pages.map_values(|p: Page| p.data_spec())
}

/// The names of a sequence of pages are in non-decreasing lexicographic
/// order.
pub open spec fn pages_sorted(pages: Seq<Page>) -> bool {
    forall|i: int, j: int|
        0 <= i < j < pages.len() ==> lex_le(
            (#[trigger] pages[i]).name_spec(),
            (#[trigger] pages[j]).name_spec(),
        )
}

/// Inserting an element anywhere in a sequence adds it to the sequence's
/// multiset.
proof fn lemma_to_multiset_insert<A>(s: Seq<A>, i: int, x: A)
    requires
        0 <= i <= s.len(),
    ensures
        s.insert(i, x).to_multiset() == s.to_multiset().insert(x),
{
    let t = s.insert(i, x);
    s.insert_ensures(i, x);
    assert(t.remove(i) =~= s);
    assert(t.remove(i).to_multiset() =~= t.to_multiset().remove(t[i]));
    assert(t.to_multiset().contains(x)) by {
        assert(t[i] == x);
        assert(t.contains(x));
    }
    assert(t.to_multiset() =~= s.to_multiset().insert(x));
}

/// Inserts `p` into the name-sorted `pages`, keeping them sorted.
fn insert_sorted(pages: &mut Vec<Page>, p: Page)
    requires
        pages_sorted(old(pages)@),
    ensures
        pages_sorted(final(pages)@),
        page_views(final(pages)@).to_multiset() == page_views(old(pages)@).to_multiset().insert(
            p.entry_view(),
        ),
        page_data_views(final(pages)@).to_multiset() == page_data_views(
            old(pages)@,
        ).to_multiset().insert(p.data_spec()),
{
    let mut k: usize = 0;
    while k < pages.len() && str_le(pages[k].file_name.as_str(), p.file_name.as_str())
        invariant
            k <= pages@.len(),
            forall|j: int| 0 <= j < k ==> lex_le((#[trigger] pages@[j]).name_spec(), p.name_spec()),
            pages_sorted(pages@),
            pages@ == old(pages)@,
        decreases pages@.len() - k,
    {
        k = k + 1;
    }
    proof {
        if (k as int) < pages@.len() {
            lemma_lex_le_total(pages@[k as int].name_spec(), p.name_spec());
        }
    }
    let ghost before = pages@;
    pages.insert(k, p);
    proof {
        before.insert_ensures(k as int, p);
        assert forall|i: int, j: int| 0 <= i < j < pages@.len() implies lex_le(
            (#[trigger] pages@[i]).name_spec(),
            (#[trigger] pages@[j]).name_spec(),
        ) by {
            if j < k {
                assert(pages@[i] == before[i] && pages@[j] == before[j]);
            } else if j == k {
                assert(pages@[i] == before[i]);
            } else if i < k {
                assert(pages@[i] == before[i] && pages@[j] == before[j - 1]);
            } else if i == k {
                assert(pages@[j] == before[j - 1]);
                if j - 1 > k {
                    lemma_lex_le_trans(
                        p.name_spec(),
                        before[k as int].name_spec(),
                        before[j - 1].name_spec(),
                    );
                }
            } else {
                assert(pages@[i] == before[i - 1] && pages@[j] == before[j - 1]);
            }
        }
        lemma_to_multiset_insert(before, k as int, p);
        assert(page_views(pages@) =~= page_views(before).insert(k as int, p.entry_view()));
        lemma_to_multiset_insert(page_views(before), k as int, p.entry_view());
        assert(page_data_views(pages@) =~= page_data_views(before).insert(k as int, p.data_spec()));
        lemma_to_multiset_insert(page_data_views(before), k as int, p.data_spec());
    }
}

/// One opened archive: its title and its name-ordered pages.
#[derive(Debug)]
pub struct Comic {
    title: String,
    pages: Vec<Page>,
}

impl Comic {
    /// The comic's title.
    pub closed spec fn title_spec(&self) -> Seq<char> {
        self.title@
    }

    /// The comic's pages, in serving order.
    pub closed spec fn pages_spec(&self) -> Seq<Page> {
        self.pages@
    }

    /// A comic's pages are sorted by entry name.
    pub open spec fn wf(&self) -> bool {
        pages_sorted(self.pages_spec())
    }

    /// `c` is the comic that a successful open of the container `data`
    /// found at `path` yields: its title is the path's final component,
    /// its pages are sorted by entry name, and its pages are exactly the
    /// container's entries — name and bytes for ZIP, bytes for RAR, whose
    /// entry names the unrar library does not report reproducibly.
    pub open spec fn comic_from(c: Comic, path: Seq<char>, data: Seq<u8>) -> bool {
        &&& c.title_spec() == base_name(path)
        &&& c.wf()
        &&& match kind_of(path) {
            Some(ArchiveKind::Zip) => zip_entries_of(data) matches Some(es) && page_views(
                c.pages_spec(),
            ).to_multiset() == es.to_multiset(),
            Some(ArchiveKind::Rar) => rar_entries_of(data) matches Some(bs) && page_data_views(
                c.pages_spec(),
            ).to_multiset() == bs.to_multiset(),
            None => false,
        }
    }

    /// Opens the archive held in `data`, found at `path`.  The backend is
    /// selected by the path's extension; every entry of the container
    /// becomes one page; pages are sorted by entry name.
    pub fn from_archive(path: &str, data: &[u8]) -> (r: Result<Comic, ComicError>)
        ensures
            ({
                match r {
                    Ok(c) => Self::comic_from(c, path@, data@),
                    Err(e) => match e {
                        ComicError::InvalidArchiveType => kind_of(path@) is None,
                        ComicError::UnreadableArchive => kind_of(path@) matches Some(k)
                            && !listable(k, data@),
                        ComicError::ExtractionFailed => kind_of(path@) is Some,
                        _ => false,
                    },
                }
            }),
            kind_of(path@) is None ==> r == Err::<Comic, ComicError>(
                ComicError::InvalidArchiveType,
            ),
            kind_of(path@) == Some(ArchiveKind::Zip) && zip_entries_of(data@) is Some ==> r is Ok,
    {
        let kind = match archive_kind(path) {
            Ok(k) => k,
            Err(_) => {
                return Err(ComicError::InvalidArchiveType);
            },
        };
        let title = file_name_part(path);
        let entries_res = match kind {
            ArchiveKind::Zip => zip_entries(data),
            ArchiveKind::Rar => rar_entries(data),
        };
        let mut entries = match entries_res {
            Ok(v) => v,
            Err(e) => {
                return Err(e);
            },
        };
        let ghost entry_seq = entry_views(entries@);
        let ghost data_seq = data_views(entries@);
        let ghost mut processed: Seq<(Seq<char>, Seq<u8>)> = Seq::empty();
        let ghost mut processed_data: Seq<Seq<u8>> = Seq::empty();
        let mut pages: Vec<Page> = Vec::new();
        while entries.len() > 0
        invariant
            entry_seq =~= processed + entry_views(entries@),
            data_seq =~= processed_data + data_views(entries@),
            pages_sorted(pages@),
            page_views(pages@).to_multiset() == processed.to_multiset(),
            page_data_views(pages@).to_multiset() == processed_data.to_multiset(),
        decreases entries@.len(),
        {
            let ghost pre = entries@;
            let (name, bytes) = entries.remove(0);
            proof {
                assert(entry_views(pre).drop_first() =~= entry_views(entries@));
                assert(entry_views(pre)[0] == (name@, bytes@));
                assert(entry_views(pre) =~= seq![(name@, bytes@)] + entry_views(entries@));
                processed = processed.push((name@, bytes@));
                assert(processed + entry_views(entries@) =~= entry_seq);
                assert(data_views(pre).drop_first() =~= data_views(entries@));
                assert(data_views(pre)[0] == bytes@);
                assert(data_views(pre) =~= seq![bytes@] + data_views(entries@));
                processed_data = processed_data.push(bytes@);
                assert(processed_data + data_views(entries@) =~= data_seq);
            }
            let page = Page::new(name, bytes);
            insert_sorted(&mut pages, page);
        }
        proof {
            assert(entry_views(entries@) =~= Seq::empty());
            assert(processed =~= entry_seq);
            assert(data_views(entries@) =~= Seq::empty());
            assert(processed_data =~= data_seq);
        }
        Ok(Comic { title, pages })
    }

    /// The source file's base name, extension included.
    pub fn title(&self) -> (r: &String)
        ensures
            r@ == self.title_spec(),
    {
        &self.title
    }

    /// The number of pages.
    pub fn length(&self) -> (r: usize)
        ensures
            r == self.pages_spec().len(),
    {
        self.pages.len()
    }

    /// The page at `index`, or `None` when `index` is out of range — out of
    /// range is "no such page", not an error.
    pub fn page(&self, index: usize) -> (r: Option<&Page>)
        ensures
            (index < self.pages_spec().len()) <==> (r is Some),
            r matches Some(p) ==> *p == self.pages_spec()[index as int],
    {
        if index < self.pages.len() {
            Some(&self.pages[index])
        } else {
            None
        }
    }

    /// Pages are served in non-decreasing entry-name order: for any two
    /// in-range indices `i <= j`, the page at `i` sorts no later than the
    /// page at `j`.
    pub proof fn lemma_page_order(&self, i: int, j: int)
        requires
            self.wf(),
            0 <= i <= j < self.pages_spec().len(),
        ensures
            lex_le(self.pages_spec()[i].name_spec(), self.pages_spec()[j].name_spec()),
    {
        if i == j {
            lemma_lex_le_refl(self.pages_spec()[i].name_spec());
        }
    }
}

} // verus!
