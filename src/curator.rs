use vstd::prelude::*;
use vstd::string::*;

use crate::json::{hex_digits, push_hex};

verus! {

/// How one character is written inside a TOML basic string.
pub open spec fn escape_char(c: char) -> Seq<char> {
    let v = c as u32;
    if c == '\x08' {
        "\\b"@
    } else if c == '\t' {
        "\\t"@
    } else if c == '\n' {
        "\\n"@
    } else if c == '\x0c' {
        "\\f"@
    } else if c == '\r' {
        "\\r"@
    } else if c == '"' {
        "\\\""@
    } else if c == '\\' {
        "\\\\"@
    } else if v <= 0x1f {
        "\\u"@ + hex_digits(v as nat, 4)
    } else if v <= 0x7e {
        seq![c]
    } else if v <= 0xffff {
        "\\u"@ + hex_digits(v as nat, 4)
    } else {
        "\\U"@ + hex_digits(v as nat, 8)
    }
}

/// A string written as the inside of a TOML basic string.
pub open spec fn escaped(s: Seq<char>) -> Seq<char>
    decreases s.len(),
{
    if s.len() == 0 {
        Seq::empty()
    } else {
        escaped(s.drop_last()) + escape_char(s.last())
    }
}

fn push_escaped_char(out: &mut String, s: &str, i: usize)
    requires
        i < s@.len(),
        s@.len() <= usize::MAX,
    ensures
        final(out)@ == old(out)@ + escape_char(s@[i as int]),
{
    let c = s.get_char(i);
    let v = c as u32;
    if c == '\x08' {
        out.append("\\b");
    } else if c == '\t' {
        out.append("\\t");
    } else if c == '\n' {
        out.append("\\n");
    } else if c == '\x0c' {
        out.append("\\f");
    } else if c == '\r' {
        out.append("\\r");
    } else if c == '"' {
        out.append("\\\"");
    } else if c == '\\' {
        out.append("\\\\");
    } else if v <= 0x1f {
        out.append("\\u");
        push_hex(out, v, 4);
    } else if v <= 0x7e {
        out.append(s.substring_char(i, i + 1));
        assert(s@.subrange(i as int, i + 1) =~= seq![c]);
    } else if v <= 0xffff {
        out.append("\\u");
        push_hex(out, v, 4);
    } else {
        out.append("\\U");
        push_hex(out, v, 8);
    }
}

/// Appends `s` written as the inside of a TOML basic string.
pub fn push_escaped(out: &mut String, s: &str)
    ensures
        final(out)@ == old(out)@ + escaped(s@),
{
    let n = s.unicode_len();
    let mut i: usize = 0;
    assert(s@.subrange(0, 0) =~= Seq::<char>::empty());
    while i < n
        invariant
            n == s@.len(),
            i <= n,
            out@ == old(out)@ + escaped(s@.subrange(0, i as int)),
        decreases n - i,
    {
        push_escaped_char(out, s, i);
        assert(s@.subrange(0, i + 1).drop_last() =~= s@.subrange(0, i as int));
        i = i + 1;
        assert(out@ =~= old(out)@ + escaped(s@.subrange(0, i as int)));
    }
    assert(s@.subrange(0, n as int) =~= s@);
}

/// `s` written as the inside of a TOML basic string.
pub fn escape_toml(s: &str) -> (r: String)
    ensures
        r@ == escaped(s@),
{
    let mut out = String::new();
    push_escaped(&mut out, s);
    out
}

/// A chapter of the skeleton: its path, and the title read for it, if any.
#[derive(Debug)]
pub struct ChapterSkeleton {
    pub path: String,
    pub title: Option<String>,
}

/// The line of a chapter; its path stands in for a missing title.
pub open spec fn chapter_line(c: ChapterSkeleton) -> Seq<char> {
    "    { path = \""@ + escaped(c.path@) + "\", title = \""@ + escaped(
        match c.title {
            Some(t) => t@,
            None => c.path@,
        },
    ) + "\" },\n"@
}

pub open spec fn chapter_lines(cs: Seq<ChapterSkeleton>) -> Seq<char>
    decreases cs.len(),
{
    if cs.len() == 0 {
        Seq::empty()
    } else {
        chapter_lines(cs.drop_last()) + chapter_line(cs.last())
    }
}

/// The descriptor skeleton: the id, the title or a placeholder, the cover file
/// or the first page, fixed defaults, and one line per chapter.
pub open spec fn info_document(
    id: Seq<char>,
    title: Option<Seq<char>>,
    cover: Option<Seq<char>>,
    cs: Seq<ChapterSkeleton>,
) -> Seq<char> {
    "id = \""@ + id + "\"\n"@ + match title {
        Some(t) => "title = \""@ + escaped(t) + "\"\n"@,
        None => "title = \"<title here>\"\n"@,
    } + match cover {
        Some(c) => "cover = \""@ + escaped(c) + "\"\n"@,
        None => "cover = { ch = 0, pg = 0 }\n"@,
    } + "status = \"unknown\"\n"@ + "description = \"<description here>\"\n"@ + "authors = []\n"@
        + "artists = []\n"@ + "tags = []\n"@ + "chapters = [\n"@ + chapter_lines(cs) + "]\n"@
}

fn push_chapter_line(out: &mut String, c: &ChapterSkeleton)
    ensures
        final(out)@ == old(out)@ + chapter_line(*c),
{
    out.append("    { path = \"");
    push_escaped(out, c.path.as_str());
    out.append("\", title = \"");
    match &c.title {
        Some(t) => push_escaped(out, t.as_str()),
        None => push_escaped(out, c.path.as_str()),
    }
    out.append("\" },\n");
    assert(final(out)@ =~= old(out)@ + chapter_line(*c));
}

/// Writes the descriptor skeleton of a work.
pub fn render_info(id: &str, title: Option<&str>, cover: Option<&str>, chapters: &Vec<ChapterSkeleton>) -> (r: String)
    ensures
        r@ == info_document(
            id@,
            match title {
                Some(t) => Some(t@),
                None => None,
            },
            match cover {
                Some(c) => Some(c@),
                None => None,
            },
            chapters@,
        ),
{
    let mut out = String::new();
    out.append("id = \"");
    out.append(id);
    out.append("\"\n");
    match title {
        Some(t) => {
            out.append("title = \"");
            push_escaped(&mut out, t);
            out.append("\"\n");
        },
        None => out.append("title = \"<title here>\"\n"),
    }
    match cover {
        Some(c) => {
            out.append("cover = \"");
            push_escaped(&mut out, c);
            out.append("\"\n");
        },
        None => out.append("cover = { ch = 0, pg = 0 }\n"),
    }
    out.append("status = \"unknown\"\n");
    out.append("description = \"<description here>\"\n");
    out.append("authors = []\n");
    out.append("artists = []\n");
    out.append("tags = []\n");
    out.append("chapters = [\n");
    let ghost head = out@;
    let mut i: usize = 0;
    assert(chapters@.subrange(0, 0) =~= Seq::<ChapterSkeleton>::empty());
    while i < chapters.len()
        invariant
            i <= chapters@.len(),
            out@ == head + chapter_lines(chapters@.subrange(0, i as int)),
        decreases chapters.len() - i,
    {
        push_chapter_line(&mut out, &chapters[i]);
        assert(chapters@.subrange(0, i + 1).drop_last() =~= chapters@.subrange(0, i as int));
        i = i + 1;
        assert(out@ =~= head + chapter_lines(chapters@.subrange(0, i as int)));
    }
    assert(chapters@.subrange(0, chapters@.len() as int) =~= chapters@);
    out.append("]\n");
    let ghost tv = match title {
        Some(t) => Some(t@),
        None => None::<Seq<char>>,
    };
    let ghost cv = match cover {
        Some(c) => Some(c@),
        None => None::<Seq<char>>,
    };
    assert(out@ =~= info_document(id@, tv, cv, chapters@));
    out
}

/// The command line of the descriptor generator.
#[derive(Debug)]
pub struct Args {
    /// The chapter paths, in the order given.
    pub chapters: Vec<Vec<u8>>,
    /// Files whose lines are the chapter titles, in order.
    pub titles: Vec<Vec<u8>>,
    /// A cover file to name instead of the first page.
    pub cover: Option<Vec<u8>>,
}

/// One item of the generator's command line.
#[derive(Debug)]
pub enum CuratorEvent {
    /// A chapter path.
    Value(Vec<u8>),
    /// `-h` or `--help`.
    Help,
    /// `-c` or `--cover`, with its value.
    Cover(Vec<u8>),
    /// `-t` or `--titles`, with its value.
    Titles(Vec<u8>),
    /// Any other option.
    Unexpected,
}

/// What to do after an item of the generator's command line.
#[derive(Debug, Clone, Copy, PartialEq, Eq, Structural)]
pub enum CuratorStep {
    Continue,
    /// Print the usage and stop.
    Help,
    /// The cover was given twice.
    DuplicateCover,
    Unexpected,
}

impl Args {
    pub fn new() -> (r: Args)
        ensures
            r.chapters@.len() == 0,
            r.titles@.len() == 0,
            r.cover is None,
    {
        Args { chapters: Vec::new(), titles: Vec::new(), cover: None }
    }

    /// Takes one item of the command line.
    pub fn step(&mut self, ev: CuratorEvent) -> (r: CuratorStep)
        ensures
            match ev {
                CuratorEvent::Value(v) => r == CuratorStep::Continue && final(self).chapters@
                    == old(self).chapters@.push(v) && final(self).titles@ == old(self).titles@
                    && final(self).cover == old(self).cover,
                CuratorEvent::Titles(v) => r == CuratorStep::Continue && final(self).titles@
                    == old(self).titles@.push(v) && final(self).chapters@ == old(self).chapters@
                    && final(self).cover == old(self).cover,
                CuratorEvent::Cover(v) => match old(self).cover {
                    None => r == CuratorStep::Continue && final(self).cover == Some(v)
                        && final(self).chapters@ == old(self).chapters@ && final(self).titles@
                        == old(self).titles@,
                    Some(_) => r == CuratorStep::DuplicateCover,
                },
                CuratorEvent::Help => r == CuratorStep::Help,
                CuratorEvent::Unexpected => r == CuratorStep::Unexpected,
            },
    {
        match ev {
            CuratorEvent::Value(v) => {
                self.chapters.push(v);
                CuratorStep::Continue
            },
            CuratorEvent::Titles(v) => {
                self.titles.push(v);
                CuratorStep::Continue
            },
            CuratorEvent::Cover(v) => {
                if self.cover.is_some() {
                    CuratorStep::DuplicateCover
                } else {
                    self.cover = Some(v);
                    CuratorStep::Continue
                }
            },
            CuratorEvent::Help => CuratorStep::Help,
            CuratorEvent::Unexpected => CuratorStep::Unexpected,
        }
    }
}

} // verus!
