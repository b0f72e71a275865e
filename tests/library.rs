use std::io::{Read, Write};

use tachi_remote::error::LoadError;
use tachi_remote::library::{join_path, LibraryBuilder, LibraryEntry};
use tachi_remote::manga::{
    manga_body, ChapterInput, CoverInput, Descriptor, FlatListInput, Manga,
};
use tachi_remote::model::{is_zero, Cover, MangaStatus, TachiyomiList};
use tachi_remote::pages::{Method, Pages, ZipEntry};
use tachi_remote::payload::{Encoding, JsonBytes};
use tachi_remote::router::{route, Route};
use tachi_remote::serve::{page_body, plan_cover, plan_page, respond, PagePlan, RangeMode, Reply};

fn descriptor(id: &str, title: &str, chapters: &[(&str, &str)]) -> Descriptor {
    Descriptor {
        id: id.to_string(),
        title: title.to_string(),
        cover: None,
        status: None,
        description: String::new(),
        authors: None,
        artists: None,
        tags: None,
        chapters: chapters
            .iter()
            .map(|(p, t)| ChapterInput { path: p.to_string(), title: t.to_string(), date: 0 })
            .collect(),
    }
}

fn loose(paths: &[&str]) -> Pages {
    Pages::from_files(paths.iter().map(|p| p.as_bytes().to_vec()).collect())
}

fn alpha_library() -> LibraryEntry {
    let mut m = Manga::from_descriptor(descriptor("a", "Alpha", &[("01", "One")])).unwrap();
    m.chapters[0].pages = loose(&["/lib/Alpha/01/b.png", "/lib/Alpha/01/a.png"]);
    let mut b = LibraryBuilder::new();
    b.add_work(m, b"/lib/Alpha").unwrap();
    b.finish()
}

fn beta_pages() -> Pages {
    let names = vec![b"002.jpg".to_vec(), b"001.jpg".to_vec()];
    let entries = vec![
        ZipEntry { method: Method::Store, data_offset: 100, compressed_size: 10, uncompressed_size: 10 },
        ZipEntry { method: Method::Deflate, data_offset: 40, compressed_size: 7, uncompressed_size: 20 },
    ];
    Pages::from_zip(b"/lib/Beta/01.cbz".to_vec(), &names, &entries)
}

fn beta_library() -> LibraryEntry {
    let mut m = Manga::from_descriptor(descriptor("b", "Beta", &[("01.cbz", "One")])).unwrap();
    m.chapters[0].pages = beta_pages();
    let mut b = LibraryBuilder::new();
    b.add_work(m, b"/lib/Beta").unwrap();
    b.finish()
}

fn deflate(data: &[u8]) -> Vec<u8> {
    let mut enc = flate2::write::DeflateEncoder::new(Vec::new(), flate2::Compression::default());
    enc.write_all(data).unwrap();
    enc.finish().unwrap()
}

#[test]
fn flat_list_single_string() {
    assert_eq!(TachiyomiList::from_one("a").0, "a");
}

#[test]
fn flat_list_one_item() {
    assert_eq!(TachiyomiList::from_seq(&vec!["a".to_string()]).0, "a");
}

#[test]
fn flat_list_three_items() {
    let v = vec!["a".to_string(), "b".to_string(), "c".to_string()];
    assert_eq!(TachiyomiList::from_seq(&v).0, "a, b, c");
}

#[test]
fn flat_list_empty_is_empty() {
    let l = TachiyomiList::from_seq(&Vec::new());
    assert_eq!(l.0, "");
    assert!(l.is_empty());
    assert!(!TachiyomiList::from_one("x").is_empty());
}

#[test]
fn status_names_and_codes() {
    assert_eq!(MangaStatus::from_name("ongoing"), Some(MangaStatus::Ongoing));
    assert_eq!(MangaStatus::from_name("publishingfinished"), Some(MangaStatus::PublishingFinished));
    assert_eq!(MangaStatus::from_name("onhiatus"), Some(MangaStatus::OnHiatus));
    assert_eq!(MangaStatus::from_name("Ongoing"), None);
    assert_eq!(MangaStatus::OnHiatus.code(), 6);
    assert_eq!(MangaStatus::Cancelled.code(), 5);
    assert_eq!(u32::from(MangaStatus::Ongoing), 1);
    assert_eq!(u32::from(MangaStatus::Unknown), 0);
    assert!(MangaStatus::Unknown.is_unknown());
    assert!(!MangaStatus::Licensed.is_unknown());
    assert_eq!(MangaStatus::default(), MangaStatus::Unknown);
    assert!(is_zero(&0));
    assert!(!is_zero(&7));
}

#[test]
fn empty_root_lists_nothing() {
    let lib = LibraryBuilder::new().finish();
    assert_eq!(lib.json.raw, b"[]".to_vec());
    assert_eq!(route(&lib, true, b"/"), Route::Library);
    assert_eq!(route(&lib, true, b"/anything"), Route::NotFound);
    assert!(matches!(respond(&lib, true, b"/anything", None), Err(e) if e.status() == 404));
}

#[test]
fn single_loose_file_work() {
    let lib = alpha_library();
    assert_eq!(lib.json.raw, br#"[{"id":"a","title":"Alpha"}]"#.to_vec());
    assert_eq!(
        lib.mangas[0].json.raw,
        br#"{"title":"Alpha","chapters":[{"title":"One","pages":2}]}"#.to_vec()
    );
    assert_eq!(route(&lib, true, b"/a"), Route::Manga(0));
    match plan_page(&lib.mangas[0], 0, 0, None) {
        Ok(PagePlan::File(p)) => assert_eq!(p, b"/lib/Alpha/01/a.png".to_vec()),
        other => panic!("{:?}", other),
    }
    match plan_page(&lib.mangas[0], 0, 1, None) {
        Ok(PagePlan::File(p)) => assert_eq!(p, b"/lib/Alpha/01/b.png".to_vec()),
        other => panic!("{:?}", other),
    }
    assert!(matches!(plan_page(&lib.mangas[0], 0, 2, None), Err(e) if e.status() == 404));
    assert!(matches!(plan_page(&lib.mangas[0], 0, 0, Some(&[0x80u8][..])), Err(e) if e.status() == 406));
    assert!(matches!(plan_page(&lib.mangas[0], 0, 2, Some(&[0x80u8][..])), Err(e) if e.status() == 404));
    assert!(matches!(respond(&lib, true, b"/a/0/1", Some(&[0x01u8][..])), Err(e) if e.status() == 406));
    assert!(matches!(plan_page(&lib.mangas[0], 1, 0, None), Err(e) if e.status() == 404));
}

#[test]
fn archive_work_sorted_by_name() {
    let lib = beta_library();
    let m = &lib.mangas[0];
    match plan_page(m, 0, 1, Some(b"identity")) {
        Ok(PagePlan::Range { offset, len, mode, .. }) => {
            assert_eq!((offset, len, mode), (100, 10, RangeMode::Stored));
        }
        other => panic!("{:?}", other),
    }
    match plan_page(m, 0, 0, Some(b"deflate")) {
        Ok(PagePlan::Range { archive, offset, len, capacity, mode }) => {
            assert_eq!(archive, b"/lib/Beta/01.cbz".to_vec());
            assert_eq!((offset, len, capacity, mode), (40, 7, 20, RangeMode::PassDeflate));
        }
        other => panic!("{:?}", other),
    }
    match plan_page(m, 0, 0, Some(b"identity")) {
        Ok(PagePlan::Range { mode, .. }) => assert_eq!(mode, RangeMode::Inflate),
        other => panic!("{:?}", other),
    }
    assert!(matches!(plan_page(m, 0, 0, Some(&[0x80u8][..])), Err(e) if e.status() == 406));
    assert!(matches!(plan_page(m, 0, 1, Some(&[0x80u8][..])), Err(e) if e.status() == 406));
}

#[test]
fn deflated_page_inflates_or_passes_through() {
    let page = b"the bytes of 001.jpg, the bytes of 001.jpg".to_vec();
    let compressed = deflate(&page);
    assert_ne!(compressed, page);
    let mk = |mode| PagePlan::Range { archive: b"x.cbz".to_vec(), offset: 0, len: 0, capacity: 0, mode };
    let inflated = page_body(&mk(RangeMode::Inflate), compressed.clone()).unwrap();
    assert_eq!(inflated.bytes, page);
    assert!(!inflated.deflate_encoded);
    let passed = page_body(&mk(RangeMode::PassDeflate), compressed.clone()).unwrap();
    assert_eq!(passed.bytes, compressed);
    assert!(passed.deflate_encoded);
    let stored = page_body(&mk(RangeMode::Stored), page.clone()).unwrap();
    assert_eq!(stored.bytes, page);
}

#[test]
fn invalid_deflate_stream_is_a_fault() {
    let plan = PagePlan::Range { archive: vec![], offset: 0, len: 0, capacity: 0, mode: RangeMode::Inflate };
    assert!(matches!(page_body(&plan, vec![0xff, 0xff, 0xff]), Err(e) if e.status() == 500));
}

#[test]
fn unsupported_method_is_a_fault() {
    let names = vec![b"a.jpg".to_vec()];
    let entries = vec![ZipEntry { method: Method::Other, data_offset: 1, compressed_size: 1, uncompressed_size: 1 }];
    let mut m = Manga::from_descriptor(descriptor("z", "Zed", &[("z.zip", "Z")])).unwrap();
    m.chapters[0].pages = Pages::from_zip(b"z.zip".to_vec(), &names, &entries);
    let mut b = LibraryBuilder::new();
    b.add_work(m, b"/lib/Z").unwrap();
    let lib = b.finish();
    assert!(matches!(plan_page(&lib.mangas[0], 0, 0, None), Err(e) if e.status() == 500));
}

#[test]
fn cover_by_page_is_that_page() {
    let mut d = descriptor("g", "Gamma", &[("01", "One")]);
    d.cover = Some(CoverInput::Page { ch: 0, pg: 0 });
    let mut m = Manga::from_descriptor(d).unwrap();
    m.chapters[0].pages = loose(&["/lib/Gamma/01/p1.png"]);
    let mut b = LibraryBuilder::new();
    b.add_work(m, b"/lib/Gamma").unwrap();
    let lib = b.finish();
    assert_eq!(route(&lib, true, b"/g/cover"), Route::Cover(0));
    match (plan_cover(&lib.mangas[0], None), plan_page(&lib.mangas[0], 0, 0, None)) {
        (Ok(PagePlan::File(a)), Ok(PagePlan::File(b))) => assert_eq!(a, b),
        other => panic!("{:?}", other),
    }
}

#[test]
fn cover_file_resolves_against_work_dir() {
    let mut d = descriptor("c", "Cee", &[]);
    d.cover = Some(CoverInput::File("x.jpg".to_string()));
    let m = Manga::from_descriptor(d).unwrap();
    let mut b = LibraryBuilder::new();
    b.add_work(m, b"/lib/Cee").unwrap();
    let lib = b.finish();
    match &lib.mangas[0].cover {
        Some(Cover::File(p)) => assert_eq!(p, &b"/lib/Cee/x.jpg".to_vec()),
        other => panic!("{:?}", other),
    }
    match plan_cover(&lib.mangas[0], None) {
        Ok(PagePlan::File(p)) => assert_eq!(p, b"/lib/Cee/x.jpg".to_vec()),
        other => panic!("{:?}", other),
    }
}

#[test]
fn no_cover_is_not_found() {
    let lib = alpha_library();
    assert!(matches!(plan_cover(&lib.mangas[0], None), Err(e) if e.status() == 404));
}

#[test]
fn malformed_sibling_is_dropped() {
    let mut b = LibraryBuilder::new();
    assert_eq!(
        Manga::from_descriptor(descriptor("", "Delta", &[])).err(),
        Some(LoadError::MissingId)
    );
    let mut bad = descriptor("d", "Delta", &[]);
    bad.status = Some("finished".to_string());
    assert_eq!(Manga::from_descriptor(bad).err(), Some(LoadError::UnknownStatus));
    let empty_id = Manga {
        id: String::new(),
        title: "Delta".to_string(),
        cover: None,
        status: MangaStatus::Unknown,
        description: String::new(),
        authors: TachiyomiList(String::new()),
        artists: TachiyomiList(String::new()),
        tags: TachiyomiList(String::new()),
        chapters: Vec::new(),
    };
    assert_eq!(b.add_work(empty_id, b"/lib/Delta"), Err(LoadError::MissingId));
    let e = Manga::from_descriptor(descriptor("e", "Epsilon", &[])).unwrap();
    b.add_work(e, b"/lib/Epsilon").unwrap();
    let lib = b.finish();
    assert_eq!(lib.json.raw, br#"[{"id":"e","title":"Epsilon"}]"#.to_vec());
}

#[test]
fn duplicate_id_is_dropped() {
    let mut b = LibraryBuilder::new();
    b.add_work(Manga::from_descriptor(descriptor("a", "First", &[])).unwrap(), b"/x").unwrap();
    let r = b.add_work(Manga::from_descriptor(descriptor("a", "Second", &[])).unwrap(), b"/y");
    assert_eq!(r, Err(LoadError::DuplicateId));
    b.add_work(Manga::from_descriptor(descriptor("b", "Third", &[])).unwrap(), b"/z").unwrap();
    let lib = b.finish();
    assert_eq!(
        lib.json.raw,
        br#"[{"id":"a","title":"First"},{"id":"b","title":"Third"}]"#.to_vec()
    );
    assert_eq!(lib.find(b"b"), Some(1));
    assert_eq!(lib.find(b"c"), None);
}

#[test]
fn full_work_body() {
    let mut d = descriptor("f", "Full \"Work\"", &[]);
    d.status = Some("completed".to_string());
    d.description = "About it".to_string();
    d.authors = Some(FlatListInput::Many(vec!["X".to_string(), "Y".to_string()]));
    d.tags = Some(FlatListInput::One("action".to_string()));
    d.chapters = vec![ChapterInput { path: "c1".to_string(), title: "C1".to_string(), date: 1234567890123 }];
    let mut m = Manga::from_descriptor(d).unwrap();
    m.chapters[0].pages = loose(&["p"]);
    let body = manga_body(&m);
    assert_eq!(
        body,
        r#"{"title":"Full \"Work\"","status":2,"description":"About it","authors":"X, Y","tags":"action","chapters":[{"title":"C1","date":1234567890123,"pages":1}]}"#
    );
}

#[test]
fn empty_fields_are_omitted() {
    let m = Manga::from_descriptor(descriptor("o", "Only", &[])).unwrap();
    assert_eq!(manga_body(&m), r#"{"title":"Only"}"#);
}

#[test]
fn json_strings_are_escaped() {
    let m = Manga::from_descriptor(descriptor("o", "line\nbreak\\", &[])).unwrap();
    assert_eq!(manga_body(&m), r#"{"title":"line\nbreak\\"}"#);
}

#[test]
fn routes() {
    let lib = alpha_library();
    assert_eq!(route(&lib, false, b"/"), Route::MethodNotAllowed);
    assert_eq!(route(&lib, true, b""), Route::Library);
    assert_eq!(route(&lib, true, b"/a/cover"), Route::Cover(0));
    assert_eq!(route(&lib, true, b"/a/cover/x"), Route::NotFound);
    assert_eq!(route(&lib, true, b"/a/0"), Route::NotFound);
    assert_eq!(route(&lib, true, b"/a/0/1"), Route::Page(0, 0, 1));
    assert_eq!(route(&lib, true, b"/a/2/07"), Route::Page(0, 2, 7));
    assert_eq!(route(&lib, true, b"/a/+2/07"), Route::NotFound);
    assert_eq!(route(&lib, true, b"/a/0/1/2"), Route::NotFound);
    assert_eq!(route(&lib, true, b"/a/x/1"), Route::NotFound);
    assert_eq!(route(&lib, true, b"/a/-1/1"), Route::NotFound);
    assert_eq!(route(&lib, true, b"/a/0/"), Route::NotFound);
    assert_eq!(route(&lib, true, b"/a/99999999999999999999999/0"), Route::NotFound);
    assert_eq!(route(&lib, true, b"/b"), Route::NotFound);
    assert!(matches!(respond(&lib, false, b"/a", None), Err(e) if e.status() == 405));
}

#[test]
fn respond_json_and_pages() {
    let lib = alpha_library();
    assert!(matches!(
        respond(&lib, true, b"/a", Some(b"gzip")),
        Ok(Reply::Json { work: Some(0), enc: Encoding::Identity })
    ));
    assert!(matches!(
        respond(&lib, true, b"/", None),
        Ok(Reply::Json { work: None, enc: Encoding::Identity })
    ));
    assert!(matches!(respond(&lib, true, b"/a/0/1", None), Ok(Reply::Read(PagePlan::File(_)))));
    assert!(matches!(respond(&lib, true, b"/a/0/5", None), Err(e) if e.status() == 404));
}

#[test]
fn listing_above_threshold_is_gzip_negotiated() {
    let mut b = LibraryBuilder::new();
    for (id, title) in [("one", "First work"), ("two", "Second work"), ("three", "Third work")] {
        b.add_work(Manga::from_descriptor(descriptor(id, title, &[])).unwrap(), b"/l").unwrap();
    }
    let lib = b.finish();
    assert!(lib.json.raw.len() > 64);
    assert!(lib.json.gzip.is_some());
    let enc = lib.json.negotiate(Some(b"gzip, deflate")).unwrap();
    assert_eq!(enc, Encoding::Gzip);
    let mut out = Vec::new();
    flate2::read::GzDecoder::new(lib.json.body(enc)).read_to_end(&mut out).unwrap();
    assert_eq!(out, lib.json.body(lib.json.negotiate(None).unwrap()).to_vec());
    assert_eq!(lib.json.negotiate(Some(b"br")).unwrap(), Encoding::Identity);
}

#[test]
fn small_body_has_no_gzip() {
    let j = JsonBytes::new(b"[]".to_vec());
    assert!(j.gzip.is_none());
    assert_eq!(j.negotiate(Some(b"gzip")).unwrap(), Encoding::Identity);
    assert_eq!(j.body(Encoding::Gzip), b"[]");
}

#[test]
fn incompressible_body_keeps_no_gzip() {
    let mut raw = Vec::new();
    let mut x: u32 = 12345;
    for _ in 0..100 {
        x = x.wrapping_mul(1103515245).wrapping_add(12345);
        raw.push((x >> 16) as u8);
    }
    let j = JsonBytes::new(raw.clone());
    assert!(j.gzip.is_none());
    assert_eq!(j.raw, raw);
}

#[test]
fn undecodable_accept_encoding_is_refused() {
    let j = JsonBytes::new(b"[]".to_vec());
    assert!(matches!(j.negotiate(Some(&[b'g', 0xc3, 0xa9])), Err(e) if e.status() == 406));
    assert_eq!(j.negotiate(Some(b"gzip;\tq=1")).unwrap(), Encoding::Identity);
}

#[test]
fn paths_join_like_push() {
    assert_eq!(join_path(b"/lib/Gamma", b"x.jpg"), b"/lib/Gamma/x.jpg".to_vec());
    assert_eq!(join_path(b"/lib/Gamma/", b"x.jpg"), b"/lib/Gamma/x.jpg".to_vec());
    assert_eq!(join_path(b"/lib/Gamma", b"/abs/x.jpg"), b"/abs/x.jpg".to_vec());
    assert_eq!(join_path(b"", b"x"), b"x".to_vec());
}

#[test]
fn listing_is_stable_across_loads() {
    let a = alpha_library();
    let b = alpha_library();
    assert_eq!(a.json.raw, b.json.raw);
    assert_eq!(a.mangas[0].json.raw, b.mangas[0].json.raw);
    assert_eq!(a.json.raw.first(), Some(&b'['));
    assert_eq!(a.json.raw.last(), Some(&b']'));
}

#[test]
fn every_listed_work_is_found() {
    let mut b = LibraryBuilder::new();
    for id in ["x", "y", "zz"] {
        b.add_work(Manga::from_descriptor(descriptor(id, "T", &[])).unwrap(), b"/l").unwrap();
    }
    let lib = b.finish();
    for (i, id) in ["x", "y", "zz"].iter().enumerate() {
        let path = format!("/{}", id);
        assert_eq!(route(&lib, true, path.as_bytes()), Route::Manga(i));
    }
}

#[test]
fn json_escaping_follows_the_table() {
    let title = "q\"b\\s/\u{8}\t\n\u{c}\r\u{1}\u{1f}\u{7f}é😀";
    let m = Manga::from_descriptor(descriptor("o", title, &[])).unwrap();
    assert_eq!(
        manga_body(&m),
        "{\"title\":\"q\\\"b\\\\s/\\b\\t\\n\\f\\r\\u0001\\u001f\u{7f}é😀\"}"
    );
}
