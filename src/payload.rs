use vstd::prelude::*;

use crate::error::Error;

verus! {

/// What gzip (flate2, best compression, no time stamp) writes for `raw`.
pub uninterp spec fn gzipped(raw: Seq<u8>) -> Seq<u8>;

/// Relies on flate2::write::GzEncoder with Compression::best, writing into a
/// `Vec`, which never fails: the gzip member for the bytes.
#[verifier::external_body]
fn gzip_best(raw: &[u8]) -> (r: Vec<u8>)
    ensures
        r@ == gzipped(raw@),
{
    let mut enc = flate2::write::GzEncoder::new(Vec::new(), flate2::Compression::best());
    std::io::Write::write_all(&mut enc, raw).expect("writing into a Vec never fails");
    enc.finish().expect("writing into a Vec never fails")
}

/// Bodies of at most this many bytes are never compressed.
pub const GZIP_THRESHOLD: usize = 64;

/// The compressed alternative kept for a raw body: the gzip form of a body
/// longer than the threshold, where it is strictly shorter.
pub open spec fn spec_gzip_alternative(raw: Seq<u8>) -> Option<Seq<u8>> {
    if raw.len() <= 64 {
        None
    } else if gzipped(raw).len() < raw.len() {
        Some(gzipped(raw))
    } else {
        None
    }
}

/// A serialized JSON body, with an optional pre-compressed twin.
#[derive(Debug)]
pub struct JsonBytes {
    pub raw: Vec<u8>,
    pub gzip: Option<Vec<u8>>,
}

/// A header byte that may appear in a header read as text.
pub open spec fn visible_ascii(b: u8) -> bool {
    (32 <= b && b < 127) || b == 9
}

/// Whether a header value reads as text.
pub open spec fn header_is_text(v: Seq<u8>) -> bool {
    forall|i: int| 0 <= i < v.len() ==> visible_ascii(#[trigger] v[i])
}

/// Whether `needle` occurs in `hay`.
pub open spec fn contains_seq(hay: Seq<u8>, needle: Seq<u8>) -> bool {
    exists|i: int| 0 <= i && i + needle.len() <= hay.len() && #[trigger] hay.subrange(i, i + needle.len()) == needle
}

/// `gzip`, as bytes.
pub open spec fn gzip_token() -> Seq<u8> {
    seq![103u8, 122u8, 105u8, 112u8]
}

/// `deflate`, as bytes.
pub open spec fn deflate_token() -> Seq<u8> {
    seq![100u8, 101u8, 102u8, 108u8, 97u8, 116u8, 101u8]
}

pub fn is_header_text(v: &[u8]) -> (r: bool)
    ensures
        r == header_is_text(v@),
{
    let mut i: usize = 0;
    while i < v.len()
        invariant
            i <= v@.len(),
            forall|j: int| 0 <= j < i ==> visible_ascii(#[trigger] v@[j]),
        decreases v.len() - i,
    {
        let b = v[i];
        if !((32 <= b && b < 127) || b == 9) {
            return false;
        }
        i = i + 1;
    }
    true
}

pub fn contains_bytes(hay: &[u8], needle: &[u8]) -> (r: bool)
    ensures
        r == contains_seq(hay@, needle@),
{
    let n = needle.len();
    if n > hay.len() {
        return false;
    }
    let mut i: usize = 0;
    while i <= hay.len() - n
        invariant
            n == needle@.len(),
            n <= hay@.len(),
            i <= hay@.len() - n + 1,
            forall|k: int| 0 <= k < i ==> #[trigger] hay@.subrange(k, k + n) != needle@,
        decreases hay.len() - n + 1 - i,
    {
        let mut j: usize = 0;
        while j < n && hay[i + j] == needle[j]
            invariant
                n == needle@.len(),
                i + n <= hay@.len(),
                hay@.len() <= usize::MAX,
                j <= n,
                forall|l: int| 0 <= l < j ==> hay@[i + l] == needle@[l],
            decreases n - j,
        {
            j = j + 1;
        }
        if j == n {
            assert(hay@.subrange(i as int, i + n) =~= needle@);
            return true;
        }
        assert(hay@.subrange(i as int, i + n)[j as int] != needle@[j as int]);
        i = i + 1;
    }
    assert forall|k: int| 0 <= k && k + n <= hay@.len() implies #[trigger] hay@.subrange(k, k + n) != needle@ by {
        assert(k < i);
    }
    false
}

/// `gzip`, as a byte vector.
pub fn gzip_bytes() -> (r: Vec<u8>)
    ensures
        r@ == gzip_token(),
{
    let mut r: Vec<u8> = Vec::new();
    r.push(103);
    r.push(122);
    r.push(105);
    r.push(112);
    assert(r@ =~= gzip_token());
    r
}

/// `deflate`, as a byte vector.
pub fn deflate_bytes() -> (r: Vec<u8>)
    ensures
        r@ == deflate_token(),
{
    let mut r: Vec<u8> = Vec::new();
    r.push(100);
    r.push(101);
    r.push(102);
    r.push(108);
    r.push(97);
    r.push(116);
    r.push(101);
    assert(r@ =~= deflate_token());
    r
}

/// Whether an `Accept-Encoding` value names `token`.
pub fn accepts(accept: &[u8], token: &[u8]) -> (r: bool)
    ensures
        r == contains_seq(accept@, token@),
{
    contains_bytes(accept, token)
}

/// Which of a payload's two bodies is sent.
#[derive(Debug, Clone, Copy, PartialEq, Eq, Structural)]
pub enum Encoding {
    Identity,
    Gzip,
}

/// The encoding negotiated for a JSON body, given the request's
/// `Accept-Encoding` value, if any: refused where that value is not text.
pub open spec fn spec_negotiate(has_gzip: bool, accept: Option<Seq<u8>>) -> Result<Encoding, Error> {
    match accept {
        None => Ok(Encoding::Identity),
        Some(a) => if !header_is_text(a) {
            Err(Error::StatusCode(406))
        } else if has_gzip && contains_seq(a, gzip_token()) {
            Ok(Encoding::Gzip)
        } else {
            Ok(Encoding::Identity)
        },
    }
}

/// The view of an optional header value.
pub open spec fn opt_view(v: Option<&[u8]>) -> Option<Seq<u8>> {
    match v {
        Some(b) => Some(b@),
        None => None,
    }
}

impl JsonBytes {
    /// The twin is the one that the body calls for.
    pub open spec fn wf(&self) -> bool {
        match self.gzip {
            Some(g) => spec_gzip_alternative(self.raw@) == Some(g@),
            None => spec_gzip_alternative(self.raw@) is None,
        }
    }

    /// Keeps the body, and a gzip twin where the body is longer than 64 bytes
    /// and the twin strictly shorter.
    pub fn new(raw: Vec<u8>) -> (r: JsonBytes)
        ensures
            r.raw@ == raw@,
            r.wf(),
    {
        if raw.len() <= GZIP_THRESHOLD {
            return JsonBytes { raw, gzip: None };
        }
        let g = gzip_best(raw.as_slice());
        let gzip = if g.len() < raw.len() {
            Some(g)
        } else {
            None
        };
        JsonBytes { raw, gzip }
    }

    /// Chooses the body to send for a request's `Accept-Encoding` value.
    pub fn negotiate(&self, accept: Option<&[u8]>) -> (r: Result<Encoding, Error>)
        ensures
            r == spec_negotiate(self.gzip is Some, opt_view(accept)),
    {
        match accept {
            None => Ok(Encoding::Identity),
            Some(a) => {
                if !is_header_text(a) {
                    Err(Error::not_acceptable())
                } else if self.gzip.is_some() && accepts(a, gzip_bytes().as_slice()) {
                    Ok(Encoding::Gzip)
                } else {
                    Ok(Encoding::Identity)
                }
            },
        }
    }

    /// The bytes sent for an encoding: the twin for gzip, where there is one.
    pub open spec fn spec_body(&self, enc: Encoding) -> Seq<u8> {
        match (enc, self.gzip) {
            (Encoding::Gzip, Some(g)) => g@,
            _ => self.raw@,
        }
    }

    pub fn body(&self, enc: Encoding) -> (r: &[u8])
        ensures
            r@ == self.spec_body(enc),
    {
        match (enc, &self.gzip) {
            (Encoding::Gzip, Some(g)) => g.as_slice(),
            _ => self.raw.as_slice(),
        }
    }
}

/// A body sent gzip-encoded is the gzip form of the body sent to a client
/// that names no encoding.
pub proof fn lemma_gzip_twin(j: &JsonBytes, accept: Option<Seq<u8>>)
    requires
        j.wf(),
        spec_negotiate(j.gzip is Some, accept) == Ok::<Encoding, Error>(Encoding::Gzip),
    ensures
        spec_negotiate(j.gzip is Some, None) == Ok::<Encoding, Error>(Encoding::Identity),
        gzipped(j.spec_body(Encoding::Identity)) == j.spec_body(Encoding::Gzip),
{
}

} // verus!
