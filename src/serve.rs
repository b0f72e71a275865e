use vstd::prelude::*;
use vstd::string::*;
use vstd::utf8::*;

use crate::error::Error;
use crate::library::{
    entry_pairs, items_json, lemma_listing_items_pairs, spec_join_path, LibraryEntry, MangaEntry};
use crate::model::Cover;
use crate::pages::{inflate, inflated, Method, Pages, ZipEntry};
use crate::payload::{
    accepts, contains_seq, deflate_bytes, deflate_token, header_is_text, is_header_text, opt_view,
    spec_negotiate, Encoding, JsonBytes,
};
use crate::router::{
    route,
    cover_segment, dec_bytes, is_digit, lemma_dec_bytes, lemma_lookup_found, lemma_parse_dec,
    lemma_split_concat, lemma_split_no_slash, spec_route, split_slash, Route,
};

verus! {

/// How the bytes read from an archive become the response body.
#[derive(Debug, Clone, Copy, PartialEq, Eq, Structural)]
pub enum RangeMode {
    /// Stored data, sent as read.
    Stored,
    /// Deflated data, sent as read and marked deflate-encoded.
    PassDeflate,
    /// Deflated data, inflated before it is sent.
    Inflate,
}

/// What to read from disk to answer a page or cover request.
#[derive(Debug)]
pub enum PagePlan {
    /// A whole file.
    File(Vec<u8>),
    /// `len` bytes at `offset` of an archive; `capacity` is the size they
    /// inflate to.
    Range { archive: Vec<u8>, offset: u64, len: u64, capacity: u64, mode: RangeMode },
}

/// The plan, with paths as byte sequences.
pub enum PlanView {
    File(Seq<u8>),
    Range(Seq<u8>, u64, u64, u64, RangeMode),
}

impl View for PagePlan {
    type V = PlanView;

    open spec fn view(&self) -> PlanView {
        match self {
            PagePlan::File(p) => PlanView::File(p@),
            PagePlan::Range { archive, offset, len, capacity, mode } => PlanView::Range(
                archive@,
                *offset,
                *len,
                *capacity,
                *mode,
            ),
        }
    }
}

/// The plan for one archived page: stored data is read as it is; deflated data
/// is passed through where the client accepts `deflate`, else inflated; any
/// other method is a fault.
pub open spec fn spec_entry_plan(path: Seq<u8>, e: ZipEntry, accept: Option<Seq<u8>>) -> Result<PlanView, u16> {
    let range = |mode: RangeMode|
        PlanView::Range(path, e.data_offset, e.compressed_size, e.uncompressed_size, mode);
    match e.method {
        Method::Store => Ok(range(RangeMode::Stored)),
        Method::Deflate => match accept {
            Some(a) => if contains_seq(a, deflate_token()) {
                Ok(range(RangeMode::PassDeflate))
            } else {
                Ok(range(RangeMode::Inflate))
            },
            None => Ok(range(RangeMode::Inflate)),
        },
        Method::Other => Err(500),
    }
}

/// An `Accept-Encoding` value is given and cannot be read as text.
pub open spec fn accept_unreadable(accept: Option<Seq<u8>>) -> bool {
    accept matches Some(a) && !header_is_text(a)
}

/// The plan for page `pg` of chapter `ch` of a work; 404 where either index is
/// out of range, else 406 where the `Accept-Encoding` value cannot be read.
pub open spec fn spec_page(m: MangaEntry, ch: int, pg: int, accept: Option<Seq<u8>>) -> Result<PlanView, u16> {
    if ch < 0 || ch >= m.chapters@.len() {
        Err(404)
    } else {
        match m.chapters@[ch].pages {
            Pages::Empty => Err(404),
            Pages::Filesystem(v) => if !(0 <= pg < v@.len()) {
                Err(404)
            } else if accept_unreadable(accept) {
                Err(406)
            } else {
                Ok(PlanView::File(v@[pg]@))
            },
            Pages::Zip(path, es) => if !(0 <= pg < es@.len()) {
                Err(404)
            } else if accept_unreadable(accept) {
                Err(406)
            } else {
                spec_entry_plan(path@, es@[pg], accept)
            },
        }
    }
}

/// The plan for the cover of a work: its file, or the page it names.
pub open spec fn spec_cover(m: MangaEntry, accept: Option<Seq<u8>>) -> Result<PlanView, u16> {
    match m.cover {
        None => Err(404),
        Some(Cover::File(p)) => Ok(PlanView::File(p@)),
        Some(Cover::Page { ch, pg }) => spec_page(m, ch as int, pg as int, accept),
    }
}

/// A planned result agrees with its statement: the same plan, or an error with
/// the same status.
pub open spec fn plan_agrees(r: Result<PagePlan, Error>, s: Result<PlanView, u16>) -> bool {
    match (r, s) {
        (Ok(p), Ok(v)) => p@ == v,
        (Err(e), Err(c)) => e.spec_status() == c,
        _ => false,
    }
}

fn copy_bytes(v: &Vec<u8>) -> (r: Vec<u8>)
    ensures
        r@ == v@,
{
    v.clone()
}

fn plan_entry(path: &Vec<u8>, e: ZipEntry, accept: Option<&[u8]>) -> (r: Result<PagePlan, Error>)
    ensures
        plan_agrees(r, spec_entry_plan(path@, e, opt_view(accept))),
{
    let mode = match e.method {
        Method::Store => RangeMode::Stored,
        Method::Deflate => match accept {
            Some(a) => {
                if accepts(a, deflate_bytes().as_slice()) {
                    RangeMode::PassDeflate
                } else {
                    RangeMode::Inflate
                }
            },
            None => RangeMode::Inflate,
        },
        Method::Other => {
            return Err(Error::Other(String::from_str("unsupported compression method")));
        },
    };
    Ok(
        PagePlan::Range {
            archive: copy_bytes(path),
            offset: e.data_offset,
            len: e.compressed_size,
            capacity: e.uncompressed_size,
            mode,
        },
    )
}

fn accept_readable(accept: Option<&[u8]>) -> (r: bool)
    ensures
        r == !accept_unreadable(opt_view(accept)),
{
    match accept {
        Some(a) => is_header_text(a),
        None => true,
    }
}

/// Plans the reading of a page.
pub fn plan_page(m: &MangaEntry, ch: usize, pg: usize, accept: Option<&[u8]>) -> (r: Result<PagePlan, Error>)
    ensures
        plan_agrees(r, spec_page(*m, ch as int, pg as int, opt_view(accept))),
{
    if ch >= m.chapters.len() {
        return Err(Error::not_found());
    }
    match &m.chapters[ch].pages {
        Pages::Empty => Err(Error::not_found()),
        Pages::Filesystem(v) => {
            if pg >= v.len() {
                return Err(Error::not_found());
            }
            if !accept_readable(accept) {
                return Err(Error::not_acceptable());
            }
            Ok(PagePlan::File(copy_bytes(&v[pg])))
        },
        Pages::Zip(path, es) => {
            if pg >= es.len() {
                return Err(Error::not_found());
            }
            if !accept_readable(accept) {
                return Err(Error::not_acceptable());
            }
            plan_entry(path, es[pg], accept)
        },
    }
}

/// Plans the reading of a work's cover.
pub fn plan_cover(m: &MangaEntry, accept: Option<&[u8]>) -> (r: Result<PagePlan, Error>)
    ensures
        plan_agrees(r, spec_cover(*m, opt_view(accept))),
{
    match &m.cover {
        None => Err(Error::not_found()),
        Some(Cover::File(p)) => Ok(PagePlan::File(copy_bytes(p))),
        Some(Cover::Page { ch, pg }) => plan_page(m, *ch, *pg, accept),
    }
}

/// A page ready to send.
#[derive(Debug)]
pub struct PageBody {
    pub bytes: Vec<u8>,
    /// The bytes are a raw DEFLATE stream, to be sent with `Content-Encoding: deflate`.
    pub deflate_encoded: bool,
}

/// The body made of the bytes read for a plan: inflated where the plan says
/// so, `None` where they do not inflate.
pub open spec fn spec_page_body(plan: PlanView, data: Seq<u8>) -> Option<(Seq<u8>, bool)> {
    match plan {
        PlanView::Range(_, _, _, _, RangeMode::Inflate) => match inflated(data) {
            Some(b) => Some((b, false)),
            None => None,
        },
        PlanView::Range(_, _, _, _, RangeMode::PassDeflate) => Some((data, true)),
        _ => Some((data, false)),
    }
}

/// Turns the bytes read for a plan into the body to send; a stream that does
/// not inflate is a fault.
pub fn page_body(plan: &PagePlan, data: Vec<u8>) -> (r: Result<PageBody, Error>)
    ensures
        match spec_page_body(plan@, data@) {
            Some((b, d)) => r matches Ok(body) && body.bytes@ == b && body.deflate_encoded == d,
            None => r matches Err(e) && e.spec_status() == 500,
        },
{
    match plan {
        PagePlan::Range { mode: RangeMode::Inflate, .. } => match inflate(data.as_slice()) {
            Some(b) => Ok(PageBody { bytes: b, deflate_encoded: false }),
            None => Err(Error::Other(String::from_str("invalid deflate stream"))),
        },
        PagePlan::Range { mode: RangeMode::PassDeflate, .. } => Ok(
            PageBody { bytes: data, deflate_encoded: true },
        ),
        _ => Ok(PageBody { bytes: data, deflate_encoded: false }),
    }
}

/// What to answer a request with, short of reading from disk.
#[derive(Debug)]
pub enum Reply {
    /// The listing body (`work` is `None`) or a work's body, in an encoding.
    Json { work: Option<usize>, enc: Encoding },
    /// A page or cover, to be read as planned.
    Read(PagePlan),
}

/// A reply agrees with its statement.
pub enum ReplyView {
    Json(Option<usize>, Encoding),
    Read(PlanView),
}

pub open spec fn reply_agrees(r: Result<Reply, Error>, s: Result<ReplyView, u16>) -> bool {
    match (r, s) {
        (Ok(Reply::Json { work, enc }), Ok(ReplyView::Json(w, e))) => work == w && enc == e,
        (Ok(Reply::Read(p)), Ok(ReplyView::Read(v))) => p@ == v,
        (Err(e), Err(c)) => e.spec_status() == c,
        _ => false,
    }
}

pub open spec fn json_reply(j: JsonBytes, work: Option<usize>, accept: Option<Seq<u8>>) -> Result<ReplyView, u16> {
    match spec_negotiate(j.gzip is Some, accept) {
        Ok(enc) => Ok(ReplyView::Json(work, enc)),
        Err(e) => Err(e.spec_status()),
    }
}

pub open spec fn read_reply(p: Result<PlanView, u16>) -> Result<ReplyView, u16> {
    match p {
        Ok(v) => Ok(ReplyView::Read(v)),
        Err(c) => Err(c),
    }
}

/// The answer to a request: 405 for any method but GET, 404 for a path that
/// names nothing, else the listing, a work, its cover or a page.
pub open spec fn spec_respond(lib: LibraryEntry, is_get: bool, path: Seq<u8>, accept: Option<Seq<u8>>) -> Result<ReplyView, u16> {
    match spec_route(lib.mangas@, is_get, path) {
        Route::MethodNotAllowed => Err(405),
        Route::NotFound => Err(404),
        Route::Library => json_reply(lib.json, None, accept),
        Route::Manga(w) => json_reply(lib.mangas@[w as int].json, Some(w), accept),
        Route::Cover(w) => read_reply(spec_cover(lib.mangas@[w as int], accept)),
        Route::Page(w, ch, pg) => read_reply(spec_page(lib.mangas@[w as int], ch as int, pg as int, accept)),
    }
}

fn reply_json(j: &JsonBytes, work: Option<usize>, accept: Option<&[u8]>) -> (r: Result<Reply, Error>)
    ensures
        reply_agrees(r, json_reply(*j, work, opt_view(accept))),
{
    match j.negotiate(accept) {
        Ok(enc) => Ok(Reply::Json { work, enc }),
        Err(e) => Err(e),
    }
}

fn reply_read(p: Result<PagePlan, Error>) -> (r: Result<Reply, Error>)
    ensures
        forall|s: Result<PlanView, u16>| plan_agrees(p, s) ==> reply_agrees(r, read_reply(s)),
{
    match p {
        Ok(v) => Ok(Reply::Read(v)),
        Err(e) => Err(e),
    }
}

/// Answers a request by its method, path and `Accept-Encoding` value.
pub fn respond(lib: &LibraryEntry, is_get: bool, path: &[u8], accept: Option<&[u8]>) -> (r: Result<Reply, Error>)
    requires
        lib.wf(),
    ensures
        reply_agrees(r, spec_respond(*lib, is_get, path@, opt_view(accept))),
{
    let rt = route(lib, is_get, path);
    let ghost ms = lib.mangas@;
    match rt {
        Route::MethodNotAllowed => Err(Error::StatusCode(405)),
        Route::NotFound => Err(Error::not_found()),
        Route::Library => reply_json(&lib.json, None, accept),
        Route::Manga(w) => {
            assert(w < ms.len());
            reply_json(&lib.mangas[w].json, Some(w), accept)
        },
        Route::Cover(w) => reply_read(plan_cover(&lib.mangas[w], accept)),
        Route::Page(w, ch, pg) => reply_read(plan_page(&lib.mangas[w], ch, pg, accept)),
    }
}

proof fn lemma_encode_nonempty(s: Seq<char>)
    requires
        s.len() > 0,
    ensures
        encode_utf8(s).len() > 0,
{
    assert(encode_utf8(s) == encode_scalar(s[0] as u32) + encode_utf8(s.drop_first()));
}

/// An id in which no byte is `/`.
pub open spec fn addressable(id: Seq<u8>) -> bool {
    forall|k: int| 0 <= k < id.len() ==> id[k] != 47u8
}

/// The path of page `pg` of chapter `ch` of the work with id bytes `id`.
pub open spec fn page_path(id: Seq<u8>, ch: usize, pg: usize) -> Seq<u8> {
    seq![47u8] + id + seq![47u8] + dec_bytes(ch as nat) + seq![47u8] + dec_bytes(pg as nat)
}

/// Every work in the listing is found at `/<id>`, where its id holds no `/`.
pub proof fn lemma_listed_work_found(lib: &LibraryEntry, i: int)
    requires
        lib.wf(),
        0 <= i < lib.mangas@.len(),
        addressable(lib.mangas@[i].id@),
    ensures
        spec_route(lib.mangas@, true, seq![47u8] + lib.mangas@[i].id@) == Route::Manga(i as usize),
{
    let id = lib.mangas@[i].id@;
    assert(lib.mangas@[i].wf());
    lemma_encode_nonempty(lib.mangas@[i].source@.id@);
    lemma_split_concat(Seq::empty(), id);
    assert(Seq::<u8>::empty() + seq![47u8] + id =~= seq![47u8] + id);
    lemma_split_no_slash(id);
    assert(split_slash(Seq::<u8>::empty()) == seq![Seq::<u8>::empty()]);
    assert(split_slash(seq![47u8] + id).drop_first() =~= seq![id]);
    lemma_lookup_found(lib, id, i);
}

/// The listing is the JSON array of one `{"id", "title"}` object per stored
/// work, in the order the works were loaded, each id being that work's id;
/// and every listed work whose id holds no `/` is found at `/<id>`.
pub proof fn lemma_listing_matches_store(lib: &LibraryEntry)
    requires
        lib.wf(),
    ensures
        entry_pairs(lib.mangas@).len() == lib.mangas@.len(),
        lib.json.raw@ == encode_utf8("["@ + items_json(entry_pairs(lib.mangas@)) + "]"@),
        forall|i: int|
            0 <= i < lib.mangas@.len() ==> encode_utf8(#[trigger] entry_pairs(lib.mangas@)[i].0)
                == lib.mangas@[i].id@,
        forall|i: int|
            0 <= i < lib.mangas@.len() && addressable(#[trigger] lib.mangas@[i].id@) ==> spec_route(
                lib.mangas@,
                true,
                seq![47u8] + lib.mangas@[i].id@,
            ) == Route::Manga(i as usize),
{
    lemma_listing_items_pairs(lib.mangas@);
    assert forall|i: int|
        0 <= i < lib.mangas@.len() && addressable(#[trigger] lib.mangas@[i].id@) implies spec_route(
        lib.mangas@,
        true,
        seq![47u8] + lib.mangas@[i].id@,
    ) == Route::Manga(i as usize) by {
        lemma_listed_work_found(lib, i);
    }
    assert forall|i: int| 0 <= i < lib.mangas@.len() implies encode_utf8(
        #[trigger] entry_pairs(lib.mangas@)[i].0,
    ) == lib.mangas@[i].id@ by {
        assert(lib.mangas@[i].wf());
    }
}

/// The page path of a work routes to that page, for every chapter and page index.
pub proof fn lemma_page_path_routes(lib: &LibraryEntry, w: int, ch: usize, pg: usize)
    requires
        lib.wf(),
        0 <= w < lib.mangas@.len(),
        addressable(lib.mangas@[w].id@),
    ensures
        spec_route(lib.mangas@, true, page_path(lib.mangas@[w].id@, ch, pg)) == Route::Page(
            w as usize,
            ch,
            pg,
        ),
{
    let id = lib.mangas@[w].id@;
    let d1 = dec_bytes(ch as nat);
    let d2 = dec_bytes(pg as nat);
    let e = Seq::<u8>::empty();
    lemma_dec_bytes(ch as nat);
    lemma_dec_bytes(pg as nat);
    lemma_parse_dec(ch);
    lemma_parse_dec(pg);
    lemma_split_no_slash(id);
    assert forall|k: int| 0 <= k < d1.len() implies d1[k] != 47u8 by {
        assert(is_digit(d1[k]));
    }
    assert forall|k: int| 0 <= k < d2.len() implies d2[k] != 47u8 by {
        assert(is_digit(d2[k]));
    }
    lemma_split_no_slash(d1);
    lemma_split_no_slash(d2);
    let a = e + seq![47u8] + id;
    let b = a + seq![47u8] + d1;
    let c = b + seq![47u8] + d2;
    assert(c =~= page_path(id, ch, pg));
    lemma_split_concat(e, id);
    lemma_split_concat(a, d1);
    lemma_split_concat(b, d2);
    assert(split_slash(e) == seq![e]);
    assert(split_slash(c).drop_first() =~= seq![id, d1, d2]);
    assert(d1 != cover_segment()) by {
        assert(is_digit(d1[0]));
    }
    assert(lib.mangas@[w].wf());
    lemma_encode_nonempty(lib.mangas@[w].source@.id@);
    lemma_lookup_found(lib, id, w);
}

/// A page request is answered 404 where the chapter or the page index is out
/// of range; in range, 406 where the `Accept-Encoding` value cannot be read,
/// and otherwise a loose page, or an archived page stored or deflated, is
/// planned.
pub proof fn lemma_page_in_range(m: MangaEntry, ch: int, pg: int, accept: Option<Seq<u8>>)
    ensures
        ch < 0 || ch >= m.chapters@.len() || pg < 0 || pg >= m.chapters@[ch].pages.count() ==> spec_page(
            m,
            ch,
            pg,
            accept,
        ) == Err::<PlanView, u16>(404),
        0 <= ch < m.chapters@.len() && 0 <= pg < m.chapters@[ch].pages.count()
            && accept_unreadable(accept) ==> spec_page(m, ch, pg, accept) == Err::<PlanView, u16>(
            406,
        ),
        0 <= ch < m.chapters@.len() && 0 <= pg < m.chapters@[ch].pages.count() && !accept_unreadable(
            accept,
        )
            && !(m.chapters@[ch].pages matches Pages::Zip(_, es) && es@[pg].method == Method::Other)
            ==> spec_page(m, ch, pg, accept) is Ok,
{
}

/// For one deflated page, the bytes sent to a client that accepts `deflate`
/// are those read from the archive, marked deflate-encoded; sent to a client
/// that names no encoding they are what those bytes inflate to.
pub proof fn lemma_deflate_pass_through(m: MangaEntry, ch: int, pg: int, a: Seq<u8>, data: Seq<u8>)
    requires
        0 <= ch < m.chapters@.len(),
        m.chapters@[ch].pages matches Pages::Zip(_, es) && 0 <= pg < es@.len() && es@[pg].method
            == Method::Deflate,
        header_is_text(a),
        contains_seq(a, deflate_token()),
    ensures
        spec_page(m, ch, pg, Some(a)) matches Ok(p1) && spec_page(m, ch, pg, None) matches Ok(p2)
            && spec_page_body(p1, data) == Some((data, true)) && (forall|b: Seq<u8>|
            spec_page_body(p2, data) == Some((b, false)) <==> inflated(data) == Some(b)),
        spec_page(m, ch, pg, Some(a)) matches Ok(PlanView::Range(p1, o1, l1, _, _)) && spec_page(
            m,
            ch,
            pg,
            None,
        ) matches Ok(PlanView::Range(p2, o2, l2, _, _)) && p1 == p2 && o1 == o2 && l1 == l2,
{
}

/// A cover given as a file is that file, resolved against the work directory;
/// a cover given as a page is served as that page.
pub proof fn lemma_cover_resolution(m: MangaEntry, accept: Option<Seq<u8>>)
    requires
        m.wf(),
    ensures
        m.source@.cover matches Some(Cover::File(rel)) ==> spec_cover(m, accept) == Ok::<
            PlanView,
            u16,
        >(PlanView::File(spec_join_path(m.dir@, rel@))),
        m.source@.cover matches Some(Cover::Page { ch, pg }) ==> spec_cover(m, accept) == spec_page(
            m,
            ch as int,
            pg as int,
            accept,
        ),
        m.source@.cover is None ==> spec_cover(m, accept) == Err::<PlanView, u16>(404),
{
}

} // verus!
