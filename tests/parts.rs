use tachi_remote::args::{ArgError, ArgEvent, ArgsParser, Step};
use tachi_remote::curator::{escape_toml, render_info, Args, ChapterSkeleton, CuratorEvent, CuratorStep};
use tachi_remote::error::{Error, LoadError};
use tachi_remote::pages::{archive_format, data_offset, ArchiveFormat, Method, Pages, ZipEntry};
use tachi_remote::server::ServerBuilder;

#[test]
fn data_offset_past_local_header() {
    assert_eq!(data_offset(100, &[5, 0, 3, 0]), Ok(138));
    assert_eq!(data_offset(0, &[0, 1, 0, 1]), Ok(30 + 256 + 256));
    assert_eq!(data_offset(100, &[5, 0, 3]), Err(LoadError::ShortLocalHeader));
    assert_eq!(data_offset(u64::MAX - 10, &[0, 0, 0, 0]), Err(LoadError::OffsetOverflow));
}

#[test]
fn archive_format_by_extension_or_magic() {
    assert_eq!(archive_format(Some(b"cbz"), b""), Ok(ArchiveFormat::Zip));
    assert_eq!(archive_format(Some(b"zip"), b""), Ok(ArchiveFormat::Zip));
    assert_eq!(archive_format(Some(b"rar"), b"PK\x03\x04"), Err(LoadError::UnknownFileType));
    assert_eq!(archive_format(None, b"PK\x03\x04\x14\x00\x00\x00"), Ok(ArchiveFormat::Zip));
    assert_eq!(archive_format(None, b"plain text"), Err(LoadError::UnknownFileType));
}

#[test]
fn loose_files_sorted_bytewise() {
    match Pages::from_files(vec![b"d/b".to_vec(), b"d/B".to_vec(), b"d/a".to_vec(), b"d/a0".to_vec()]) {
        Pages::Filesystem(v) => assert_eq!(
            v,
            vec![b"d/B".to_vec(), b"d/a".to_vec(), b"d/a0".to_vec(), b"d/b".to_vec()]
        ),
        other => panic!("{:?}", other),
    }
}

#[test]
fn zip_entries_sorted_by_name() {
    let e = |o| ZipEntry { method: Method::Store, data_offset: o, compressed_size: 1, uncompressed_size: 1 };
    let names = vec![b"c".to_vec(), b"a".to_vec(), b"b".to_vec()];
    let p = Pages::from_zip(b"z".to_vec(), &names, &vec![e(3), e(1), e(2)]);
    assert_eq!(p.len(), 3);
    match p {
        Pages::Zip(_, v) => assert_eq!(v.iter().map(|x| x.data_offset).collect::<Vec<_>>(), vec![1, 2, 3]),
        other => panic!("{:?}", other),
    }
    assert_eq!(Pages::Empty.len(), 0);
}

#[test]
fn toml_escaping() {
    assert_eq!(escape_toml("plain"), "plain");
    assert_eq!(escape_toml("a\"b\\c"), "a\\\"b\\\\c");
    assert_eq!(escape_toml("\u{8}\t\n\u{c}\r"), "\\b\\t\\n\\f\\r");
    assert_eq!(escape_toml("\u{1}\u{7f}é"), "\\u0001\\u007f\\u00e9");
    assert_eq!(escape_toml("\u{1F600}"), "\\U0001f600");
}

#[test]
fn skeleton_document() {
    let chapters = vec![
        ChapterSkeleton { path: "01".to_string(), title: Some("First".to_string()) },
        ChapterSkeleton { path: "0\"2".to_string(), title: None },
    ];
    let doc = render_info("id-1", Some("My Work"), None, &chapters);
    assert_eq!(
        doc,
        "id = \"id-1\"\n\
         title = \"My Work\"\n\
         cover = { ch = 0, pg = 0 }\n\
         status = \"unknown\"\n\
         description = \"<description here>\"\n\
         authors = []\n\
         artists = []\n\
         tags = []\n\
         chapters = [\n    \
         { path = \"01\", title = \"First\" },\n    \
         { path = \"0\\\"2\", title = \"0\\\"2\" },\n\
         ]\n"
    );
    let doc = render_info("x", None, Some("cover.png"), &Vec::new());
    assert!(doc.contains("title = \"<title here>\"\n"));
    assert!(doc.contains("cover = \"cover.png\"\n"));
    assert!(doc.ends_with("chapters = [\n]\n"));
}

#[test]
fn server_args() {
    let mut p = ArgsParser::new();
    assert_eq!(p.step(ArgEvent::Value(b"8080".to_vec())), Step::Continue);
    let a = p.finish().unwrap();
    assert_eq!((a.port, a.path), (8080, b".".to_vec()));

    let mut p = ArgsParser::new();
    p.step(ArgEvent::Value(b"1".to_vec()));
    assert_eq!(p.step(ArgEvent::Value(b"/lib".to_vec())), Step::Continue);
    assert_eq!(p.step(ArgEvent::Value(b"x".to_vec())), Step::Fail(ArgError::Unexpected));
    let a = p.finish().unwrap();
    assert_eq!(a.path, b"/lib".to_vec());

    let mut p = ArgsParser::new();
    assert_eq!(p.step(ArgEvent::Value(b"70000".to_vec())), Step::Fail(ArgError::InvalidPort));
    let mut p = ArgsParser::new();
    assert_eq!(p.step(ArgEvent::Value(b"http".to_vec())), Step::Fail(ArgError::InvalidPort));
    let mut p = ArgsParser::new();
    assert_eq!(p.step(ArgEvent::Value(b"+80".to_vec())), Step::Fail(ArgError::InvalidPort));
    let mut p = ArgsParser::new();
    assert_eq!(p.step(ArgEvent::Help), Step::Help);
    let mut p = ArgsParser::new();
    assert_eq!(p.step(ArgEvent::Unexpected), Step::Fail(ArgError::Unexpected));
    assert_eq!(ArgsParser::new().finish().err(), Some(ArgError::MissingPort));
    let mut p = ArgsParser::new();
    p.step(ArgEvent::Help);
    assert_eq!(p.finish().err(), Some(ArgError::MissingPort));
}

#[test]
fn curator_args() {
    let mut a = Args::new();
    assert_eq!(a.step(CuratorEvent::Value(b"01".to_vec())), CuratorStep::Continue);
    assert_eq!(a.step(CuratorEvent::Titles(b"t.txt".to_vec())), CuratorStep::Continue);
    assert_eq!(a.step(CuratorEvent::Cover(b"c.png".to_vec())), CuratorStep::Continue);
    assert_eq!(a.step(CuratorEvent::Cover(b"d.png".to_vec())), CuratorStep::DuplicateCover);
    assert_eq!(a.step(CuratorEvent::Help), CuratorStep::Help);
    assert_eq!(a.step(CuratorEvent::Unexpected), CuratorStep::Unexpected);
    assert_eq!(a.chapters, vec![b"01".to_vec()]);
    assert_eq!(a.titles, vec![b"t.txt".to_vec()]);
    assert_eq!(a.cover, Some(b"c.png".to_vec()));
}

#[test]
fn errors_and_builder() {
    assert_eq!(Error::not_found().status(), 404);
    assert_eq!(Error::not_acceptable().status(), 406);
    match Error::Other("boom".to_string()).with_context("page") {
        Error::Other(m) => assert_eq!(m, "page: boom"),
        other => panic!("{:?}", other),
    }
    assert_eq!(Error::Other(String::new()).status(), 500);
    assert!(matches!(Error::not_found().with_context("x"), Error::StatusCode(404)));
    assert_eq!(ServerBuilder::new(8080).port, 8080);
}
