use vstd::prelude::*;
use vstd::string::*;

verus! {

/// Whether two strings hold the same characters.
pub fn str_eq(a: &str, b: &str) -> (r: bool)
    ensures
        r == (a@ == b@),
{
    let n = a.unicode_len();
    if n != b.unicode_len() {
        return false;
    }
    let mut i: usize = 0;
    while i < n
        invariant
            n == a@.len(),
            n == b@.len(),
            i <= n,
            forall|j: int| 0 <= j < i ==> a@[j] == b@[j],
        decreases n - i,
    {
        if a.get_char(i) != b.get_char(i) {
            return false;
        }
        i = i + 1;
    }
    assert(a@ =~= b@);
    true
}

/// Publication status of a work. Read from its lowercase name, written as its code.
#[derive(Debug, Clone, Copy, PartialEq, Eq, Structural)]
pub enum MangaStatus {
    Unknown,
    Ongoing,
    Completed,
    Licensed,
    PublishingFinished,
    Cancelled,
    OnHiatus,
}

impl MangaStatus {
    /// The numeric code used on the wire.
    pub open spec fn spec_code(self) -> u32 {
        match self {
            MangaStatus::Unknown => 0,
            MangaStatus::Ongoing => 1,
            MangaStatus::Completed => 2,
            MangaStatus::Licensed => 3,
            MangaStatus::PublishingFinished => 4,
            MangaStatus::Cancelled => 5,
            MangaStatus::OnHiatus => 6,
        }
    }

    /// The status whose lowercase name is `s`, if any.
    pub open spec fn spec_from_name(s: Seq<char>) -> Option<MangaStatus> {
        if s == "unknown"@ {
            Some(MangaStatus::Unknown)
        } else if s == "ongoing"@ {
            Some(MangaStatus::Ongoing)
        } else if s == "completed"@ {
            Some(MangaStatus::Completed)
        } else if s == "licensed"@ {
            Some(MangaStatus::Licensed)
        } else if s == "publishingfinished"@ {
            Some(MangaStatus::PublishingFinished)
        } else if s == "cancelled"@ {
            Some(MangaStatus::Cancelled)
        } else if s == "onhiatus"@ {
            Some(MangaStatus::OnHiatus)
        } else {
            None
        }
    }

    /// Returns `true` if the status is `Unknown`.
    pub fn is_unknown(&self) -> (r: bool)
        ensures
            r == (*self == MangaStatus::Unknown),
    {
        matches!(self, MangaStatus::Unknown)
    }

    pub fn code(self) -> (r: u32)
        ensures
            r == self.spec_code(),
    {
        match self {
            MangaStatus::Unknown => 0,
            MangaStatus::Ongoing => 1,
            MangaStatus::Completed => 2,
            MangaStatus::Licensed => 3,
            MangaStatus::PublishingFinished => 4,
            MangaStatus::Cancelled => 5,
            MangaStatus::OnHiatus => 6,
        }
    }

    /// Reads a status from its lowercase name; `None` for any other text.
    pub fn from_name(s: &str) -> (r: Option<MangaStatus>)
        ensures
            r == MangaStatus::spec_from_name(s@),
    {
        if str_eq(s, "unknown") {
            Some(MangaStatus::Unknown)
        } else if str_eq(s, "ongoing") {
            Some(MangaStatus::Ongoing)
        } else if str_eq(s, "completed") {
            Some(MangaStatus::Completed)
        } else if str_eq(s, "licensed") {
            Some(MangaStatus::Licensed)
        } else if str_eq(s, "publishingfinished") {
            Some(MangaStatus::PublishingFinished)
        } else if str_eq(s, "cancelled") {
            Some(MangaStatus::Cancelled)
        } else if str_eq(s, "onhiatus") {
            Some(MangaStatus::OnHiatus)
        } else {
            None
        }
    }
}

impl Default for MangaStatus {
    fn default() -> (r: MangaStatus)
        ensures
            r == MangaStatus::Unknown,
    {
        MangaStatus::Unknown
    }
}

impl From<MangaStatus> for u32 {
    fn from(v: MangaStatus) -> u32 {
        v.code()
    }
}

impl vstd::std_specs::convert::FromSpecImpl<MangaStatus> for u32 {
    open spec fn obeys_from_spec() -> bool {
        true
    }

    open spec fn from_spec(v: MangaStatus) -> u32 {
        v.spec_code()
    }
}

/// Whether a chapter date is unset.
pub fn is_zero(v: &u64) -> (r: bool)
    ensures
        r == (*v == 0),
{
    *v == 0
}

/// The text that joins the items of a flat list.
pub open spec fn list_separator() -> Seq<char> {
    seq![',', ' ']
}

/// The items of a list joined by `", "`; the empty list gives the empty string.
pub open spec fn join_flat(items: Seq<Seq<char>>) -> Seq<char>
    decreases items.len(),
{
    if items.len() == 0 {
        Seq::empty()
    } else if items.len() == 1 {
        items[0]
    } else {
        join_flat(items.drop_last()) + list_separator() + items.last()
    }
}

/// A field given either as one string or as a list of strings, kept as one
/// string: the list's items joined by `", "`.
#[derive(Debug)]
pub struct TachiyomiList(pub String);

impl TachiyomiList {
    pub open spec fn view(&self) -> Seq<char> {
        self.0@
    }

    pub fn is_empty(&self) -> (r: bool)
        ensures
            r == (self@.len() == 0),
    {
        self.0.as_str().is_empty()
    }

    /// The list given as a single string.
    pub fn from_one(s: &str) -> (r: TachiyomiList)
        ensures
            r@ == s@,
    {
        TachiyomiList(String::from_str(s))
    }

    /// The list given as a sequence of strings.
    pub fn from_seq(items: &Vec<String>) -> (r: TachiyomiList)
        ensures
            r@ == join_flat(items@.map_values(|s: String| s@)),
    {
        let ghost views = items@.map_values(|s: String| s@);
        let mut res = String::new();
        if items.len() == 0 {
            return TachiyomiList(res);
        }
        res.append(items[0].as_str());
        let mut i: usize = 1;
        while i < items.len()
            invariant
                1 <= i <= items.len(),
                views == items@.map_values(|s: String| s@),
                res@ == join_flat(views.subrange(0, i as int)),
            decreases items.len() - i,
        {
            proof {
                reveal_strlit(", ");
                let next = views.subrange(0, i + 1);
                assert(next.drop_last() =~= views.subrange(0, i as int));
            }
            res.append(", ");
            res.append(items[i].as_str());
            i = i + 1;
        }
        assert(views.subrange(0, items.len() as int) =~= views);
        TachiyomiList(res)
    }

    /// A list given as one string reads the same as a list of that one string.
    pub proof fn lemma_single_item(s: Seq<char>)
        ensures
            join_flat(seq![s]) == s,
    {
    }
}

/// Where the cover of a work comes from.
#[derive(Debug)]
pub enum Cover {
    /// An image file; a path relative to the work directory until resolved.
    File(Vec<u8>),
    /// A page of one of the work's chapters, by zero-based indices.
    Page { ch: usize, pg: usize },
}

} // verus!
