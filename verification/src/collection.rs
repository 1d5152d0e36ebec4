//! A collection of comics built from a set of candidate archives.
//!
//! Construction is best effort: candidates whose extension is not
//! recognized, and candidates that fail to open, are dropped silently; the
//! comics that remain keep the relative order of their sources.  One bad
//! archive never blocks access to the rest.

use crate::backend::zip_entries_of;
use crate::comic::Comic;
use crate::providers::kind_of;
use crate::providers::ArchiveKind;
use crate::providers::ArchiveSource;
use vstd::prelude::*;

verus! {

/// A source whose open cannot fail: the extension selects the ZIP backend
/// and the container's bytes list successfully.  (Nothing of the kind can
/// be promised for the RAR backend, which works through transient storage.)
pub open spec fn open_must_succeed(s: ArchiveSource) -> bool {
    kind_of(s.path@) == Some(ArchiveKind::Zip) && zip_entries_of(s.data@) is Some
}

/// `comics` are the comics a best-effort build from `sources` yields,
/// selected by the strictly increasing index map `m`: each comic opened
/// from its source in order, and no source that must open was dropped.
pub open spec fn collection_built_from(
    comics: Seq<Comic>,
    sources: Seq<ArchiveSource>,
    m: Seq<int>,
) -> bool {
    &&& m.len() == comics.len()
    &&& forall|j1: int, j2: int| 0 <= j1 < j2 < m.len() ==> m[j1] < m[j2]
    &&& forall|j: int|
        0 <= j < m.len() ==> 0 <= #[trigger] m[j] < sources.len() && Comic::comic_from(
            comics[j],
            sources[m[j]].path@,
            sources[m[j]].data@,
        )
    &&& forall|i: int|
        0 <= i < sources.len() && open_must_succeed(#[trigger] sources[i]) ==> m.contains(i)
}

/// An ordered set of comics, holding the candidates that opened.
#[derive(Debug)]
pub struct ComicCollection {
    name: String,
    comics: Vec<Comic>,
}

impl ComicCollection {
    /// The collection's display name.
    pub closed spec fn name_spec(&self) -> Seq<char> {
        self.name@
    }

    /// The comics the collection holds, in order.
    pub closed spec fn comics_spec(&self) -> Seq<Comic> {
        self.comics@
    }

    /// Every comic in the collection has its pages sorted by entry name.
    pub open spec fn wf(&self) -> bool {
        forall|j: int|
            0 <= j < self.comics_spec().len() ==> (#[trigger] self.comics_spec()[j]).wf()
    }

    /// Builds a collection from candidate archives.  Candidates with an
    /// unrecognized extension, and candidates that fail to open, are
    /// dropped silently; the rest become comics in source order.
    pub fn new(name: String, sources: Vec<ArchiveSource>) -> (r: ComicCollection)
        ensures
            r.name_spec() == name@,
            r.wf(),
            exists|m: Seq<int>| collection_built_from(r.comics_spec(), sources@, m),
    {
        let mut comics: Vec<Comic> = Vec::new();
        let ghost mut m: Seq<int> = Seq::empty();
        let mut i: usize = 0;
        while i < sources.len()
            invariant
                i <= sources@.len(),
                m.len() == comics@.len(),
                forall|j1: int, j2: int| 0 <= j1 < j2 < m.len() ==> m[j1] < m[j2],
                forall|j: int|
                    0 <= j < m.len() ==> 0 <= #[trigger] m[j] < i && Comic::comic_from(
                        comics@[j],
                        sources@[m[j]].path@,
                        sources@[m[j]].data@,
                    ),
                forall|ii: int|
                    0 <= ii < i && open_must_succeed(#[trigger] sources@[ii]) ==> m.contains(ii),
            decreases sources@.len() - i,
        {
            let src = &sources[i];
            let ghost m_before = m;
            match Comic::from_archive(src.path.as_str(), src.data.as_slice()) {
                Ok(c) => {
                    comics.push(c);
                    proof {
                        m = m.push(i as int);
                        assert(m[m.len() - 1] == i as int);
                        assert forall|x: int| m_before.contains(x) implies m.contains(x) by {
                            let k = choose|k: int|
                                0 <= k < m_before.len() && m_before[k] == x;
                            assert(m[k] == x);
                        }
                        assert(m.contains(i as int));
                    }
                },
                Err(_) => {
                    proof {
                        assert(!open_must_succeed(sources@[i as int]));
                    }
                },
            }
            i = i + 1;
        }
        let r = ComicCollection { name, comics };
        proof {
            assert(collection_built_from(r.comics_spec(), sources@, m));
            assert forall|j: int| 0 <= j < r.comics_spec().len() implies (
            #[trigger] r.comics_spec()[j]).wf() by {
                assert(Comic::comic_from(
                    r.comics_spec()[j],
                    sources@[m[j]].path@,
                    sources@[m[j]].data@,
                ));
            }
        }
        r
    }

    /// The collection's display name.
    pub fn name(&self) -> (r: &String)
        ensures
            r@ == self.name_spec(),
    {
        &self.name
    }

    /// The number of comics that opened successfully.
    pub fn size(&self) -> (r: usize)
        ensures
            r == self.comics_spec().len(),
    {
        self.comics.len()
    }

    /// The comic at `index`, or `None` when `index` is out of range — out
    /// of range is "no such comic", not an error.
    pub fn comic(&self, index: usize) -> (r: Option<&Comic>)
        ensures
            (index < self.comics_spec().len()) <==> (r is Some),
            r matches Some(c) ==> *c == self.comics_spec()[index as int],
    {
        if index < self.comics.len() {
            Some(&self.comics[index])
        } else {
            None
        }
    }
}

/// Order law for a built collection: comics keep the relative order of
/// their sources — two comics in collection order were opened from two
/// sources in that same order.
pub proof fn lemma_collection_order(
    comics: Seq<Comic>,
    sources: Seq<ArchiveSource>,
    m: Seq<int>,
    j1: int,
    j2: int,
)
    requires
        collection_built_from(comics, sources, m),
        0 <= j1 < j2 < comics.len(),
    ensures
        0 <= m[j1] < m[j2] < sources.len(),
        Comic::comic_from(comics[j1], sources[m[j1]].path@, sources[m[j1]].data@),
        Comic::comic_from(comics[j2], sources[m[j2]].path@, sources[m[j2]].data@),
{
}

/// `c` was opened from one of `sources`.
pub open spec fn opened_from_some(c: Comic, sources: Seq<ArchiveSource>) -> bool {
    exists|i: int|
        0 <= i < sources.len() && Comic::comic_from(c, (#[trigger] sources[i]).path@, sources[i].data@)
}

/// One of `comics` was opened from `s`.
pub open spec fn included_in(s: ArchiveSource, comics: Seq<Comic>) -> bool {
    exists|j: int| 0 <= j < comics.len() && Comic::comic_from(#[trigger] comics[j], s.path@, s.data@)
}

/// Membership law for a built collection: every comic in it was opened from
/// one of the sources — so a path with an unrecognized extension is never
/// included — and every source that must open is included.
pub proof fn lemma_collection_membership(
    comics: Seq<Comic>,
    sources: Seq<ArchiveSource>,
    m: Seq<int>,
)
    requires
        collection_built_from(comics, sources, m),
    ensures
        forall|j: int| 0 <= j < comics.len() ==> opened_from_some(#[trigger] comics[j], sources),
        forall|i: int|
            0 <= i < sources.len() && open_must_succeed(#[trigger] sources[i]) ==> included_in(
                sources[i],
                comics,
            ),
        forall|s: ArchiveSource| kind_of(s.path@) is None ==> !included_in(s, comics),
{
    assert forall|s: ArchiveSource| kind_of(s.path@) is None implies !included_in(s, comics) by {
        if included_in(s, comics) {
            let j = choose|j: int|
                0 <= j < comics.len() && Comic::comic_from(#[trigger] comics[j], s.path@, s.data@);
            assert(kind_of(s.path@) is Some);
        }
    }
    assert forall|j: int| 0 <= j < comics.len() implies opened_from_some(
        #[trigger] comics[j],
        sources,
    ) by {
        assert(0 <= m[j] < sources.len() && Comic::comic_from(
            comics[j],
            sources[m[j]].path@,
            sources[m[j]].data@,
        ));
    }
    assert forall|i: int|
        0 <= i < sources.len() && open_must_succeed(#[trigger] sources[i]) implies included_in(
        sources[i],
        comics,
    ) by {
        let k = choose|k: int| 0 <= k < m.len() && m[k] == i;
        assert(0 <= k < comics.len() && Comic::comic_from(
            comics[k],
            sources[i].path@,
            sources[i].data@,
        ));
    }
}

} // verus!
