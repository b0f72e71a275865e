use vstd::prelude::*;
use vstd::string::*;
use vstd::utf8::*;

use crate::json::{dec_str, push_decimal, push_quoted, quoted};
use crate::error::LoadError;
use crate::model::{join_flat, Cover, MangaStatus, TachiyomiList};
use crate::pages::Pages;

verus! {

/// One chapter of a work.
#[derive(Debug)]
pub struct Chapter {
    /// Where the chapter is stored, relative to the work directory.
    pub path: Vec<u8>,
    pub title: String,
    /// Release date; 0 means unset.
    pub date: u64,
    pub pages: Pages,
}

/// A work as its descriptor gives it.
#[derive(Debug)]
pub struct Manga {
    pub id: String,
    pub title: String,
    pub cover: Option<Cover>,
    pub status: MangaStatus,
    /// Empty means absent.
    pub description: String,
    pub authors: TachiyomiList,
    pub artists: TachiyomiList,
    pub tags: TachiyomiList,
    pub chapters: Vec<Chapter>,
}

/// A list field as the descriptor gives it.
#[derive(Debug)]
pub enum FlatListInput {
    One(String),
    Many(Vec<String>),
}

/// A cover as the descriptor gives it.
#[derive(Debug)]
pub enum CoverInput {
    File(String),
    Page { ch: usize, pg: usize },
}

/// A chapter as the descriptor gives it.
#[derive(Debug)]
pub struct ChapterInput {
    pub path: String,
    pub title: String,
    pub date: u64,
}

/// The fields of a descriptor, as read from `info.toml`.
#[derive(Debug)]
pub struct Descriptor {
    pub id: String,
    pub title: String,
    pub cover: Option<CoverInput>,
    pub status: Option<String>,
    pub description: String,
    pub authors: Option<FlatListInput>,
    pub artists: Option<FlatListInput>,
    pub tags: Option<FlatListInput>,
    pub chapters: Vec<ChapterInput>,
}

/// The text of a list field: one string as it is, a list joined by `", "`,
/// nothing as the empty string.
pub open spec fn spec_flat(f: Option<FlatListInput>) -> Seq<char> {
    match f {
        None => Seq::empty(),
        Some(FlatListInput::One(s)) => s@,
        Some(FlatListInput::Many(v)) => join_flat(v@.map_values(|s: String| s@)),
    }
}

fn flat_list(f: Option<FlatListInput>) -> (r: TachiyomiList)
    ensures
        r@ == spec_flat(f),
{
    match f {
        None => TachiyomiList(String::new()),
        Some(FlatListInput::One(s)) => TachiyomiList::from_one(s.as_str()),
        Some(FlatListInput::Many(v)) => TachiyomiList::from_seq(&v),
    }
}

/// The cover a descriptor names, with a file path as its UTF-8 bytes.
pub open spec fn cover_from_input(r: Option<Cover>, c: Option<CoverInput>) -> bool {
    match (r, c) {
        (None, None) => true,
        (Some(Cover::File(p)), Some(CoverInput::File(s))) => p@ == encode_utf8(s@),
        (Some(Cover::Page { ch, pg }), Some(CoverInput::Page { ch: c2, pg: p2 })) => ch == c2 && pg == p2,
        _ => false,
    }
}

/// The status a descriptor names: Unknown where it names none.
pub open spec fn spec_status_of(s: Option<String>) -> Option<MangaStatus> {
    match s {
        None => Some(MangaStatus::Unknown),
        Some(n) => MangaStatus::spec_from_name(n@),
    }
}

impl Manga {
    /// Reads a work from its descriptor: `MissingId` for an empty id,
    /// `UnknownStatus` for a status that names none; the chapters have no
    /// pages yet.
    pub fn from_descriptor(d: Descriptor) -> (r: Result<Manga, LoadError>)
        ensures
            d.id@.len() == 0 ==> r == Err::<Manga, LoadError>(LoadError::MissingId),
            d.id@.len() > 0 && spec_status_of(d.status) is None ==> r == Err::<Manga, LoadError>(
                LoadError::UnknownStatus,
            ),
            d.id@.len() > 0 && spec_status_of(d.status) is Some ==> (r matches Ok(m) && m.id@
                == d.id@ && m.title@ == d.title@ && Some(m.status) == spec_status_of(d.status)
                && m.description@ == d.description@ && m.authors@ == spec_flat(d.authors)
                && m.artists@ == spec_flat(d.artists) && m.tags@ == spec_flat(d.tags)
                && cover_from_input(m.cover, d.cover) && m.chapters@.len() == d.chapters@.len()
                && forall|i: int|
                0 <= i < m.chapters@.len() ==> {
                    let c = #[trigger] m.chapters@[i];
                    &&& c.path@ == encode_utf8(d.chapters@[i].path@)
                    &&& c.title@ == d.chapters@[i].title@
                    &&& c.date == d.chapters@[i].date
                    &&& c.pages matches Pages::Empty
                }),
    {
        if d.id.as_str().is_empty() {
            return Err(LoadError::MissingId);
        }
        let status = match d.status {
            None => MangaStatus::Unknown,
            Some(n) => match MangaStatus::from_name(n.as_str()) {
                Some(st) => st,
                None => return Err(LoadError::UnknownStatus),
            },
        };
        let ghost dc = d.chapters@;
        let Descriptor { id, title, cover, description, authors, artists, tags, chapters, .. } = d;
        let cover = match cover {
            None => None,
            Some(CoverInput::File(s)) => Some(Cover::File(s.as_str().as_bytes_vec())),
            Some(CoverInput::Page { ch, pg }) => Some(Cover::Page { ch, pg }),
        };
        let mut out: Vec<Chapter> = Vec::new();
        let mut i: usize = 0;
        while i < chapters.len()
            invariant
                chapters@ == dc,
                i <= dc.len(),
                out@.len() == i,
                forall|j: int|
                    0 <= j < i ==> {
                        let c = #[trigger] out@[j];
                        &&& c.path@ == encode_utf8(dc[j].path@)
                        &&& c.title@ == dc[j].title@
                        &&& c.date == dc[j].date
                        &&& c.pages matches Pages::Empty
                    },
            decreases chapters.len() - i,
        {
            let ci = &chapters[i];
            out.push(
                Chapter {
                    path: ci.path.as_str().as_bytes_vec(),
                    title: ci.title.clone(),
                    date: ci.date,
                    pages: Pages::Empty,
                },
            );
            i = i + 1;
        }
        Ok(
            Manga {
                id,
                title,
                cover,
                status,
                description,
                authors: flat_list(authors),
                artists: flat_list(artists),
                tags: flat_list(tags),
                chapters: out,
            },
        )
    }
}

/// `key` followed by `value` where `present`, else nothing.
pub open spec fn field_if(present: bool, key: Seq<char>, value: Seq<char>) -> Seq<char> {
    if present {
        key + value
    } else {
        Seq::empty()
    }
}

/// The JSON object of a chapter: its title, its date where set, its page count.
pub open spec fn chapter_json(c: Chapter) -> Seq<char> {
    "{\"title\":"@ + quoted(c.title@) + field_if(c.date != 0, ",\"date\":"@, dec_str(c.date as nat))
        + ",\"pages\":"@ + dec_str(c.pages.count()) + "}"@
}

/// The chapter objects, separated by commas.
pub open spec fn chapters_json(cs: Seq<Chapter>) -> Seq<char>
    decreases cs.len(),
{
    if cs.len() == 0 {
        Seq::empty()
    } else if cs.len() == 1 {
        chapter_json(cs[0])
    } else {
        chapters_json(cs.drop_last()) + ","@ + chapter_json(cs.last())
    }
}

/// The JSON object of a work: all but its id, cover and chapter paths, with the
/// fields that are empty left out.
pub open spec fn manga_json(m: Manga) -> Seq<char> {
    "{\"title\":"@ + quoted(m.title@) + field_if(
        m.status != MangaStatus::Unknown,
        ",\"status\":"@,
        dec_str(m.status.spec_code() as nat),
    ) + field_if(m.description@.len() != 0, ",\"description\":"@, quoted(m.description@))
        + field_if(m.authors@.len() != 0, ",\"authors\":"@, quoted(m.authors@)) + field_if(
        m.artists@.len() != 0,
        ",\"artists\":"@,
        quoted(m.artists@),
    ) + field_if(m.tags@.len() != 0, ",\"tags\":"@, quoted(m.tags@)) + field_if(
        m.chapters@.len() != 0,
        ",\"chapters\":["@,
        chapters_json(m.chapters@) + "]"@,
    ) + "}"@
}

/// Every chapter has at most `u32::MAX` pages.
pub open spec fn pages_fit(m: Manga) -> bool {
    forall|i: int| 0 <= i < m.chapters@.len() ==> #[trigger] m.chapters@[i].pages.count() <= u32::MAX
}

fn push_chapter(out: &mut String, c: &Chapter)
    requires
        c.pages.count() <= u32::MAX,
    ensures
        final(out)@ == old(out)@ + chapter_json(*c),
{
    out.append("{\"title\":");
    push_quoted(out, c.title.as_str());
    if c.date != 0 {
        out.append(",\"date\":");
        push_decimal(out, c.date);
    }
    out.append(",\"pages\":");
    push_decimal(out, c.pages.len() as u64);
    out.append("}");
    assert(final(out)@ =~= old(out)@ + chapter_json(*c));
}

fn push_optional(out: &mut String, key: &str, value: &str)
    ensures
        final(out)@ == old(out)@ + field_if(value@.len() != 0, key@, quoted(value@)),
{
    if value.is_empty() {
        assert(final(out)@ =~= old(out)@ + field_if(value@.len() != 0, key@, quoted(value@)));
        return;
    }
    out.append(key);
    push_quoted(out, value);
    assert(final(out)@ =~= old(out)@ + field_if(value@.len() != 0, key@, quoted(value@)));
}

/// The serialized body of a work.
pub fn manga_body(m: &Manga) -> (r: String)
    requires
        pages_fit(*m),
    ensures
        r@ == manga_json(*m),
{
    let mut out = String::new();
    out.append("{\"title\":");
    push_quoted(&mut out, m.title.as_str());
    let ghost after_title = out@;
    if !m.status.is_unknown() {
        out.append(",\"status\":");
        push_decimal(&mut out, m.status.code() as u64);
    }
    let ghost after_status = out@;
    assert(after_status =~= after_title + field_if(
        m.status != MangaStatus::Unknown,
        ",\"status\":"@,
        dec_str(m.status.spec_code() as nat),
    ));
    push_optional(&mut out, ",\"description\":", m.description.as_str());
    push_optional(&mut out, ",\"authors\":", m.authors.0.as_str());
    push_optional(&mut out, ",\"artists\":", m.artists.0.as_str());
    push_optional(&mut out, ",\"tags\":", m.tags.0.as_str());
    let ghost before_chapters = out@;
    let n = m.chapters.len();
    if n > 0 {
        out.append(",\"chapters\":[");
        let ghost start = out@;
        let mut i: usize = 0;
        while i < n
            invariant
                n == m.chapters@.len(),
                pages_fit(*m),
                i <= n,
                out@ == start + chapters_json(m.chapters@.subrange(0, i as int)),
            decreases n - i,
        {
            if i > 0 {
                out.append(",");
            }
            let ghost mid = out@;
            push_chapter(&mut out, &m.chapters[i]);
            proof {
                let next = m.chapters@.subrange(0, i + 1);
                assert(next.drop_last() =~= m.chapters@.subrange(0, i as int));
                assert(next.last() == m.chapters@[i as int]);
                if i == 0 {
                    assert(chapters_json(m.chapters@.subrange(0, 0)) =~= Seq::<char>::empty());
                    assert(out@ =~= start + chapters_json(next));
                } else {
                    assert(out@ =~= start + chapters_json(next));
                }
            }
            i = i + 1;
        }
        assert(m.chapters@.subrange(0, n as int) =~= m.chapters@);
        out.append("]");
    }
    assert(out@ =~= before_chapters + field_if(
        m.chapters@.len() != 0,
        ",\"chapters\":["@,
        chapters_json(m.chapters@) + "]"@,
    ));
    out.append("}");
    assert(out@ =~= manga_json(*m));
    out
}

/// The listing object of a work: its id and title.
pub open spec fn listing_item_json(id: Seq<char>, title: Seq<char>) -> Seq<char> {
    "{\"id\":"@ + quoted(id) + ",\"title\":"@ + quoted(title) + "}"@
}

/// Appends the listing object of a work.
pub fn push_listing_item(out: &mut String, id: &str, title: &str)
    ensures
        final(out)@ == old(out)@ + listing_item_json(id@, title@),
{
    out.append("{\"id\":");
    push_quoted(out, id);
    out.append(",\"title\":");
    push_quoted(out, title);
    out.append("}");
    assert(final(out)@ =~= old(out)@ + listing_item_json(id@, title@));
}

/// The body of a work leaves out every field that is empty: with Unknown
/// status, no description, empty lists and no chapters only the title is
/// written, and a chapter with date 0 is written without a date.
pub proof fn lemma_empty_fields_omitted(m: Manga, c: Chapter)
    ensures
        m.status == MangaStatus::Unknown && m.description@.len() == 0 && m.authors@.len() == 0
            && m.artists@.len() == 0 && m.tags@.len() == 0 && m.chapters@.len() == 0
            ==> manga_json(m) == "{\"title\":"@ + quoted(m.title@) + "}"@,
        c.date == 0 ==> chapter_json(c) == "{\"title\":"@ + quoted(c.title@) + ",\"pages\":"@
            + dec_str(c.pages.count()) + "}"@,
{
    if m.status == MangaStatus::Unknown && m.description@.len() == 0 && m.authors@.len() == 0
        && m.artists@.len() == 0 && m.tags@.len() == 0 && m.chapters@.len() == 0 {
        assert(manga_json(m) =~= "{\"title\":"@ + quoted(m.title@) + "}"@);
    }
    if c.date == 0 {
        assert(chapter_json(c) =~= "{\"title\":"@ + quoted(c.title@) + ",\"pages\":"@ + dec_str(
            c.pages.count(),
        ) + "}"@);
    }
}

} // verus!
