use vstd::prelude::*;

use crate::error::LoadError;
use crate::model::str_eq;
use crate::order::{is_perm, sorted_by, sorted_order, views};

verus! {

/// How the data of a zip entry is stored.
#[derive(Debug, Clone, Copy, PartialEq, Eq, Structural)]
pub enum Method {
    Store,
    Deflate,
    /// Any other method; such a page cannot be served.
    Other,
}

/// The cached record of one archived page.
#[derive(Debug, Clone, Copy, PartialEq, Eq, Structural)]
pub struct ZipEntry {
    pub method: Method,
    /// Offset of the entry's data in the archive, past its local header.
    pub data_offset: u64,
    pub compressed_size: u64,
    pub uncompressed_size: u64,
}

/// A little-endian 16-bit field.
pub open spec fn le16(lo: u8, hi: u8) -> nat {
    lo as nat + 256 * (hi as nat)
}

/// Size of a zip local file header before its name and extra field.
pub const LOCAL_HEADER_LEN: u64 = 30;

/// Where an entry's data starts, from the offset of its local header and the
/// four bytes read at `header_offset + 26` (name length, extra field length).
pub open spec fn spec_data_offset(header_offset: u64, fields: Seq<u8>) -> int {
    header_offset + 30 + le16(fields[0], fields[1]) + le16(fields[2], fields[3])
}

pub fn data_offset(header_offset: u64, fields: &[u8]) -> (r: Result<u64, LoadError>)
    ensures
        fields@.len() != 4 ==> r == Err::<u64, LoadError>(LoadError::ShortLocalHeader),
        fields@.len() == 4 && spec_data_offset(header_offset, fields@) <= u64::MAX ==> r == Ok::<
            u64,
            LoadError,
        >(spec_data_offset(header_offset, fields@) as u64),
        fields@.len() == 4 && spec_data_offset(header_offset, fields@) > u64::MAX ==> r == Err::<
            u64,
            LoadError,
        >(LoadError::OffsetOverflow),
{
    if fields.len() != 4 {
        return Err(LoadError::ShortLocalHeader);
    }
    let name_len: u64 = fields[0] as u64 + 256 * (fields[1] as u64);
    let extra_len: u64 = fields[2] as u64 + 256 * (fields[3] as u64);
    if header_offset > u64::MAX - LOCAL_HEADER_LEN - name_len - extra_len {
        return Err(LoadError::OffsetOverflow);
    }
    Ok(header_offset + LOCAL_HEADER_LEN + name_len + extra_len)
}

/// The extension that infer reports for a buffer that starts with a known magic.
pub uninterp spec fn inferred_extension(magic: Seq<u8>) -> Option<Seq<char>>;

/// Relies on infer::get and Type::extension: the extension of the first
/// matching file type, for the same bytes always the same.
#[verifier::external_body]
fn infer_extension(magic: &[u8]) -> (r: Option<&'static str>)
    ensures
        match r {
            Some(e) => inferred_extension(magic@) == Some(e@),
            None => inferred_extension(magic@) is None,
        },
{
    infer::get(magic).map(|t| t.extension())
}

/// The archive formats that chapters may be stored in.
#[derive(Debug, Clone, Copy, PartialEq, Eq, Structural)]
pub enum ArchiveFormat {
    Zip,
}

/// `zip` or `cbz`, as bytes.
pub open spec fn is_zip_ext(e: Seq<u8>) -> bool {
    e == seq![122u8, 105u8, 112u8] || e == seq![99u8, 98u8, 122u8]
}

/// The format of a chapter file: by its extension, or, where it has none, by
/// the magic at its start.
pub open spec fn spec_archive_format(ext: Option<Seq<u8>>, magic: Seq<u8>) -> Option<ArchiveFormat> {
    match ext {
        Some(e) => if is_zip_ext(e) {
            Some(ArchiveFormat::Zip)
        } else {
            None
        },
        None => match inferred_extension(magic) {
            Some(x) => if x == "zip"@ || x == "cbz"@ {
                Some(ArchiveFormat::Zip)
            } else {
                None
            },
            None => None,
        },
    }
}

pub fn archive_format(ext: Option<&[u8]>, magic: &[u8]) -> (r: Result<ArchiveFormat, LoadError>)
    ensures
        match spec_archive_format(
            match ext {
                Some(e) => Some(e@),
                None => None,
            },
            magic@,
        ) {
            Some(f) => r == Ok::<ArchiveFormat, LoadError>(f),
            None => r == Err::<ArchiveFormat, LoadError>(LoadError::UnknownFileType),
        },
{
    match ext {
        Some(e) => {
            let zip = e.len() == 3 && e[0] == 122 && e[1] == 105 && e[2] == 112;
            let cbz = e.len() == 3 && e[0] == 99 && e[1] == 98 && e[2] == 122;
            assert(zip <==> e@ == seq![122u8, 105u8, 112u8]) by {
                if e@ == seq![122u8, 105u8, 112u8] {
                    assert(e@[0] == 122u8);
                } else if zip {
                    assert(e@ =~= seq![122u8, 105u8, 112u8]);
                }
            }
            assert(cbz <==> e@ == seq![99u8, 98u8, 122u8]) by {
                if e@ == seq![99u8, 98u8, 122u8] {
                    assert(e@[0] == 99u8);
                } else if cbz {
                    assert(e@ =~= seq![99u8, 98u8, 122u8]);
                }
            }
            if zip || cbz {
                Ok(ArchiveFormat::Zip)
            } else {
                Err(LoadError::UnknownFileType)
            }
        },
        None => match infer_extension(magic) {
            Some(x) => {
                if str_eq(x, "zip") || str_eq(x, "cbz") {
                    Ok(ArchiveFormat::Zip)
                } else {
                    Err(LoadError::UnknownFileType)
                }
            },
            None => Err(LoadError::UnknownFileType),
        },
    }
}

/// What inflating a raw DEFLATE stream gives, where it is a valid one.
pub uninterp spec fn inflated(data: Seq<u8>) -> Option<Seq<u8>>;

/// Relies on flate2::read::DeflateDecoder: decodes a raw DEFLATE stream read
/// from a byte slice.
#[verifier::external_body]
pub(crate) fn inflate(data: &[u8]) -> (r: Option<Vec<u8>>)
    ensures
        match r {
            Some(v) => inflated(data@) == Some(v@),
            None => inflated(data@) is None,
        },
{
    let mut out = Vec::new();
    std::io::Read::read_to_end(&mut flate2::read::DeflateDecoder::new(data), &mut out).ok().map(|_| out)
}

/// The pages of a chapter and how to reach them.
#[derive(Debug)]
pub enum Pages {
    /// No pages; every page lookup misses.
    Empty,
    /// Loose image files, by path, in byte-wise ascending order.
    Filesystem(Vec<Vec<u8>>),
    /// Entries of the zip archive at the path, in byte-wise ascending order of name.
    Zip(Vec<u8>, Vec<ZipEntry>),
}

impl Pages {
    /// The number of pages.
    pub open spec fn count(&self) -> nat {
        match self {
            Pages::Empty => 0,
            Pages::Filesystem(v) => v@.len(),
            Pages::Zip(_, v) => v@.len(),
        }
    }

    /// The number of pages; a chapter of more than `u32::MAX` pages is refused.
    pub fn len(&self) -> (r: u32)
        requires
            self.count() <= u32::MAX,
        ensures
            r == self.count(),
    {
        match self {
            Pages::Empty => 0,
            Pages::Filesystem(v) => v.len() as u32,
            Pages::Zip(_, v) => v.len() as u32,
        }
    }

    /// Loose files of a chapter directory, sorted by path.
    pub fn from_files(paths: Vec<Vec<u8>>) -> (r: Pages)
        ensures
            r matches Pages::Filesystem(out) && exists|p: Seq<usize>|
                is_perm(p, paths@.len()) && sorted_by(views(paths@), p) && out@.len() == p.len()
                    && forall|i: int| 0 <= i < p.len() ==> #[trigger] out@[i]@ == paths@[p[i] as int]@,
    {
        let order = sorted_order(&paths);
        let mut out: Vec<Vec<u8>> = Vec::new();
        let mut i: usize = 0;
        while i < order.len()
            invariant
                is_perm(order@, paths@.len()),
                i <= order@.len(),
                out@.len() == i,
                forall|j: int| 0 <= j < i ==> #[trigger] out@[j]@ == paths@[order@[j] as int]@,
            decreases order.len() - i,
        {
            out.push(paths[order[i]].clone());
            i = i + 1;
        }
        Pages::Filesystem(out)
    }

    /// Entries of a zip archive, given with their names, sorted by name.
    pub fn from_zip(path: Vec<u8>, names: &Vec<Vec<u8>>, entries: &Vec<ZipEntry>) -> (r: Pages)
        requires
            names@.len() == entries@.len(),
        ensures
            r matches Pages::Zip(rp, out) && rp@ == path@ && exists|p: Seq<usize>|
                is_perm(p, names@.len()) && sorted_by(views(names@), p) && out@.len() == p.len()
                    && forall|i: int| 0 <= i < p.len() ==> #[trigger] out@[i] == entries@[p[i] as int],
    {
        let order = sorted_order(names);
        let mut out: Vec<ZipEntry> = Vec::new();
        let mut i: usize = 0;
        while i < order.len()
            invariant
                is_perm(order@, names@.len()),
                names@.len() == entries@.len(),
                i <= order@.len(),
                out@.len() == i,
                forall|j: int| 0 <= j < i ==> #[trigger] out@[j] == entries@[order@[j] as int],
            decreases order.len() - i,
        {
            out.push(entries[order[i]]);
            i = i + 1;
        }
        Pages::Zip(path, out)
    }
}

impl Default for Pages {
    fn default() -> (r: Pages)
        ensures
            r matches Pages::Empty,
    {
        Pages::Empty
    }
}

} // verus!
