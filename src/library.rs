use vstd::prelude::*;
use vstd::string::*;
use vstd::utf8::*;

use crate::error::LoadError;
use crate::json::{dec_str, quoted};
use crate::manga::{
    chapter_json, field_if, listing_item_json, manga_body, manga_json, pages_fit, push_listing_item,
    Chapter, Manga,
};
use crate::model::Cover;
use crate::order::{append_bytes, bytes_eq};
use crate::pages::Pages;
use crate::payload::{Encoding, JsonBytes};

verus! {

/// `rel` resolved against `dir`, as a path is pushed onto another: an absolute
/// `rel` replaces `dir`, else a `/` separates them where `dir` lacks one.
pub open spec fn spec_join_path(dir: Seq<u8>, rel: Seq<u8>) -> Seq<u8> {
    if rel.len() > 0 && rel[0] == 47u8 {
        rel
    } else if dir.len() == 0 || dir.last() == 47u8 {
        dir + rel
    } else {
        dir.push(47u8) + rel
    }
}

pub fn join_path(dir: &[u8], rel: &[u8]) -> (r: Vec<u8>)
    ensures
        r@ == spec_join_path(dir@, rel@),
{
    let mut out: Vec<u8> = Vec::new();
    if rel.len() > 0 && rel[0] == 47 {
        append_bytes(&mut out, rel);
        assert(out@ =~= rel@);
        return out;
    }
    append_bytes(&mut out, dir);
    if dir.len() > 0 && dir[dir.len() - 1] != 47 {
        out.push(47);
    }
    append_bytes(&mut out, rel);
    assert(out@ =~= spec_join_path(dir@, rel@));
    out
}

/// `r` is the cover `c` with a file path resolved against `dir`.
pub open spec fn cover_resolved(r: Option<Cover>, c: Option<Cover>, dir: Seq<u8>) -> bool {
    match (r, c) {
        (None, None) => true,
        (Some(Cover::File(p)), Some(Cover::File(rel))) => p@ == spec_join_path(dir, rel@),
        (Some(Cover::Page { ch, pg }), Some(Cover::Page { ch: c2, pg: p2 })) => ch == c2 && pg == p2,
        _ => false,
    }
}

pub fn resolve_cover(c: Option<Cover>, dir: &[u8]) -> (r: Option<Cover>)
    ensures
        cover_resolved(r, c, dir@),
{
    match c {
        None => None,
        Some(Cover::File(rel)) => Some(Cover::File(join_path(dir, rel.as_slice()))),
        Some(Cover::Page { ch, pg }) => Some(Cover::Page { ch, pg }),
    }
}

/// The pages of a chapter, as served.
#[derive(Debug)]
pub struct ChapterEntry {
    pub pages: Pages,
}

impl ChapterEntry {
    pub fn new(ch: Chapter) -> (r: ChapterEntry)
        ensures
            r.pages == ch.pages,
    {
        ChapterEntry { pages: ch.pages }
    }
}

/// A loaded work: its id, its serialized body, its cover and its chapters.
pub struct MangaEntry {
    /// The id, as the bytes that a request names it by.
    pub id: Vec<u8>,
    pub json: JsonBytes,
    pub cover: Option<Cover>,
    pub chapters: Vec<ChapterEntry>,
    /// The descriptor the entry was made from.
    pub source: Ghost<Manga>,
    /// The work directory.
    pub dir: Ghost<Seq<u8>>,
}

impl MangaEntry {
    pub open spec fn wf(&self) -> bool {
        let m = self.source@;
        &&& m.id@.len() > 0
        &&& self.id@ == encode_utf8(m.id@)
        &&& pages_fit(m)
        &&& self.json.raw@ == encode_utf8(manga_json(m))
        &&& self.json.wf()
        &&& cover_resolved(self.cover, m.cover, self.dir@)
        &&& self.chapters@.len() == m.chapters@.len()
        &&& forall|i: int|
            0 <= i < self.chapters@.len() ==> (#[trigger] self.chapters@[i]).pages
                == m.chapters@[i].pages
    }

    /// Makes the entry of a work whose chapters are resolved: `MissingId` for
    /// an empty id.
    pub fn new(manga: Manga, dir: &[u8]) -> (r: Result<MangaEntry, LoadError>)
        requires
            pages_fit(manga),
        ensures
            manga.id@.len() == 0 ==> r == Err::<MangaEntry, LoadError>(LoadError::MissingId),
            manga.id@.len() > 0 ==> (r matches Ok(e) && e.wf() && e.source@ == manga && e.dir@
                == dir@),
    {
        if manga.id.as_str().is_empty() {
            return Err(LoadError::MissingId);
        }
        let body = manga_body(&manga);
        let ghost snap = manga;
        let id = manga.id.as_str().as_bytes_vec();
        let json = JsonBytes::new(body.as_str().as_bytes_vec());
        let Manga { cover, chapters, .. } = manga;
        let cover = resolve_cover(cover, dir);
        let mut rest = chapters;
        let mut out: Vec<ChapterEntry> = Vec::new();
        while rest.len() > 0
            invariant
                out@.len() + rest@.len() == snap.chapters@.len(),
                forall|j: int| 0 <= j < out@.len() ==> (#[trigger] out@[j]).pages == snap.chapters@[j].pages,
                forall|j: int| 0 <= j < rest@.len() ==> #[trigger] rest@[j] == snap.chapters@[out@.len() + j],
            decreases rest.len(),
        {
            let c = rest.remove(0);
            out.push(ChapterEntry::new(c));
        }
        Ok(MangaEntry { id, json, cover, chapters: out, source: Ghost(snap), dir: Ghost(dir@) })
    }
}

/// The listing objects of the entries, separated by commas.
pub open spec fn listing_items(ms: Seq<MangaEntry>) -> Seq<char>
    decreases ms.len(),
{
    if ms.len() == 0 {
        Seq::empty()
    } else if ms.len() == 1 {
        listing_item_json(ms[0].source@.id@, ms[0].source@.title@)
    } else {
        listing_items(ms.drop_last()) + ","@ + listing_item_json(
            ms.last().source@.id@,
            ms.last().source@.title@,
        )
    }
}

/// The library listing: a JSON array of the works' ids and titles, in the order
/// in which they were loaded.
pub open spec fn listing_json(ms: Seq<MangaEntry>) -> Seq<char> {
    "["@ + listing_items(ms) + "]"@
}

/// The id and title of each entry, in order.
pub open spec fn entry_pairs(ms: Seq<MangaEntry>) -> Seq<(Seq<char>, Seq<char>)> {
    ms.map_values(|e: MangaEntry| (e.source@.id@, e.source@.title@))
}

/// The listing objects of (id, title) pairs, separated by commas.
pub open spec fn items_json(ps: Seq<(Seq<char>, Seq<char>)>) -> Seq<char>
    decreases ps.len(),
{
    if ps.len() == 0 {
        Seq::empty()
    } else if ps.len() == 1 {
        listing_item_json(ps[0].0, ps[0].1)
    } else {
        items_json(ps.drop_last()) + ","@ + listing_item_json(ps.last().0, ps.last().1)
    }
}

pub proof fn lemma_listing_items_pairs(ms: Seq<MangaEntry>)
    ensures
        listing_items(ms) == items_json(entry_pairs(ms)),
    decreases ms.len(),
{
    if ms.len() > 1 {
        lemma_listing_items_pairs(ms.drop_last());
        assert(entry_pairs(ms).drop_last() =~= entry_pairs(ms.drop_last()));
    }
}

/// Every entry is well formed, and no two share an id.
pub open spec fn entries_wf(ms: Seq<MangaEntry>) -> bool {
    &&& forall|i: int| 0 <= i < ms.len() ==> (#[trigger] ms[i]).wf()
    &&& forall|i: int, j: int| 0 <= i < j < ms.len() ==> ms[i].id@ != ms[j].id@
}

/// The finished, immutable library: the listing body and the works.
pub struct LibraryEntry {
    pub json: JsonBytes,
    pub mangas: Vec<MangaEntry>,
}

impl LibraryEntry {
    pub open spec fn wf(&self) -> bool {
        &&& entries_wf(self.mangas@)
        &&& self.json.raw@ == encode_utf8(listing_json(self.mangas@))
        &&& self.json.wf()
    }

    /// The index of the work with id bytes `id`, if there is one.
    pub fn find(&self, id: &[u8]) -> (r: Option<usize>)
        requires
            self.wf(),
        ensures
            match r {
                Some(i) => i < self.mangas@.len() && self.mangas@[i as int].id@ == id@,
                None => forall|i: int| 0 <= i < self.mangas@.len() ==> self.mangas@[i].id@ != id@,
            },
    {
        let mut i: usize = 0;
        while i < self.mangas.len()
            invariant
                i <= self.mangas@.len(),
                forall|j: int| 0 <= j < i ==> self.mangas@[j].id@ != id@,
            decreases self.mangas.len() - i,
        {
            if bytes_eq(self.mangas[i].id.as_slice(), id) {
                return Some(i);
            }
            i = i + 1;
        }
        None
    }
}

proof fn lemma_listing_items_same(a: Seq<MangaEntry>, b: Seq<MangaEntry>)
    requires
        a.len() == b.len(),
        forall|i: int| 0 <= i < a.len() ==> (#[trigger] a[i]).source@ == b[i].source@,
    ensures
        listing_items(a) == listing_items(b),
    decreases a.len(),
{
    if a.len() > 1 {
        lemma_listing_items_same(a.drop_last(), b.drop_last());
    }
}

/// The listing is a JSON array fixed by the works loaded and their order: two
/// libraries loaded with the same works in the same order send the same bytes.
pub proof fn lemma_listing_stable(a: &LibraryEntry, b: &LibraryEntry, enc: Encoding)
    requires
        a.wf(),
        b.wf(),
        a.mangas@.len() == b.mangas@.len(),
        forall|i: int| 0 <= i < a.mangas@.len() ==> (#[trigger] a.mangas@[i]).source@ == b.mangas@[i].source@,
    ensures
        a.json.spec_body(enc) == b.json.spec_body(enc),
        listing_json(a.mangas@)[0] == '[',
        listing_json(a.mangas@).last() == ']',
{
    lemma_listing_items_same(a.mangas@, b.mangas@);
    reveal_strlit("[");
    reveal_strlit("]");
}

/// The page count written for each chapter of a work is the number of entries
/// in the page source that serves it.
pub proof fn lemma_chapter_page_count(e: &MangaEntry, i: int)
    requires
        e.wf(),
        0 <= i < e.chapters@.len(),
    ensures
        chapter_json(e.source@.chapters@[i]) == "{\"title\":"@ + quoted(e.source@.chapters@[i].title@)
            + field_if(
            e.source@.chapters@[i].date != 0,
            ",\"date\":"@,
            dec_str(e.source@.chapters@[i].date as nat),
        ) + ",\"pages\":"@ + dec_str(e.chapters@[i].pages.count()) + "}"@,
{
    assert(e.chapters@[i].pages == e.source@.chapters@[i].pages);
}

/// A library being loaded: works are added one at a time, and a work that
/// fails leaves it as it was.
pub struct LibraryBuilder {
    listing: String,
    mangas: Vec<MangaEntry>,
}

impl LibraryBuilder {
    pub closed spec fn entries(&self) -> Seq<MangaEntry> {
        self.mangas@
    }

    pub closed spec fn wf(&self) -> bool {
        &&& entries_wf(self.mangas@)
        &&& self.listing@ == "["@ + listing_items(self.mangas@)
    }

    pub fn new() -> (r: LibraryBuilder)
        ensures
            r.wf(),
            r.entries().len() == 0,
    {
        let mut listing = String::new();
        listing.append("[");
        LibraryBuilder { listing, mangas: Vec::new() }
    }

    /// Adds a work read from `dir`. Fails, leaving the library as it was, with
    /// `MissingId` for an empty id, or with `DuplicateId` where a loaded work
    /// has the same id.
    pub fn add_work(&mut self, manga: Manga, dir: &[u8]) -> (r: Result<(), LoadError>)
        requires
            old(self).wf(),
            pages_fit(manga),
        ensures
            final(self).wf(),
            r is Err ==> final(self).entries() == old(self).entries(),
            manga.id@.len() == 0 ==> r == Err::<(), LoadError>(LoadError::MissingId),
            manga.id@.len() > 0 && (exists|i: int|
                0 <= i < old(self).entries().len() && #[trigger] old(self).entries()[i].id@
                    == encode_utf8(manga.id@)) ==> r == Err::<(), LoadError>(LoadError::DuplicateId),
            manga.id@.len() > 0 && (forall|i: int|
                0 <= i < old(self).entries().len() ==> #[trigger] old(self).entries()[i].id@
                    != encode_utf8(manga.id@)) ==> r is Ok,
            r is Ok ==> final(self).entries().len() == old(self).entries().len() + 1
                && final(self).entries().drop_last() == old(self).entries()
                && final(self).entries().last().source@ == manga
                && final(self).entries().last().dir@ == dir@,
    {
        let mut item = String::new();
        if self.mangas.len() > 0 {
            item.append(",");
        }
        push_listing_item(&mut item, manga.id.as_str(), manga.title.as_str());
        let entry = match MangaEntry::new(manga, dir) {
            Ok(e) => e,
            Err(e) => return Err(e),
        };
        match self.find_entry(entry.id.as_slice()) {
            Some(_) => return Err(LoadError::DuplicateId),
            None => {},
        }
        let ghost old_ms = self.mangas@;
        self.listing.append(item.as_str());
        self.mangas.push(entry);
        proof {
            assert(self.mangas@.drop_last() =~= old_ms);
            if old_ms.len() > 0 {
                assert(self.listing@ =~= "["@ + listing_items(self.mangas@));
            } else {
                assert(listing_items(old_ms) =~= Seq::<char>::empty());
                assert(self.listing@ =~= "["@ + listing_items(self.mangas@));
            }
        }
        Ok(())
    }

    fn find_entry(&self, id: &[u8]) -> (r: Option<usize>)
        ensures
            match r {
                Some(i) => i < self.mangas@.len() && self.mangas@[i as int].id@ == id@,
                None => forall|i: int| 0 <= i < self.mangas@.len() ==> self.mangas@[i].id@ != id@,
            },
    {
        let mut i: usize = 0;
        while i < self.mangas.len()
            invariant
                i <= self.mangas@.len(),
                forall|j: int| 0 <= j < i ==> self.mangas@[j].id@ != id@,
            decreases self.mangas.len() - i,
        {
            if bytes_eq(self.mangas[i].id.as_slice(), id) {
                return Some(i);
            }
            i = i + 1;
        }
        None
    }

    /// Closes the listing and hands over the finished library.
    pub fn finish(self) -> (r: LibraryEntry)
        requires
            self.wf(),
        ensures
            r.wf(),
            r.mangas@ == self.entries(),
    {
        let LibraryBuilder { mut listing, mangas } = self;
        listing.append("]");
        let json = JsonBytes::new(listing.as_str().as_bytes_vec());
        LibraryEntry { json, mangas }
    }
}

} // verus!
