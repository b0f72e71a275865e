use vstd::prelude::*;

use crate::library::{LibraryEntry, MangaEntry};
use crate::order::views;

verus! {

/// The segments of a path, split at every `/`.
pub open spec fn split_slash(s: Seq<u8>) -> Seq<Seq<u8>>
    decreases s.len(),
{
    if s.len() == 0 {
        seq![Seq::empty()]
    } else {
        let prev = split_slash(s.drop_last());
        if s.last() == 47u8 {
            prev.push(Seq::empty())
        } else {
            prev.update(prev.len() - 1, prev.last().push(s.last()))
        }
    }
}

pub proof fn lemma_split_nonempty(s: Seq<u8>)
    ensures
        split_slash(s).len() >= 1,
    decreases s.len(),
{
    if s.len() > 0 {
        lemma_split_nonempty(s.drop_last());
    }
}

/// Splits a path at every `/`.
pub fn split_path(path: &[u8]) -> (r: Vec<Vec<u8>>)
    ensures
        views(r@) == split_slash(path@),
{
    let mut done: Vec<Vec<u8>> = Vec::new();
    let mut cur: Vec<u8> = Vec::new();
    let mut i: usize = 0;
    assert(path@.subrange(0, 0) =~= Seq::<u8>::empty());
    assert(views(done@).push(cur@) =~= split_slash(path@.subrange(0, 0)));
    while i < path.len()
        invariant
            i <= path@.len(),
            views(done@).push(cur@) == split_slash(path@.subrange(0, i as int)),
        decreases path.len() - i,
    {
        let b = path[i];
        let ghost pre = path@.subrange(0, i as int);
        let ghost next = path@.subrange(0, i + 1);
        assert(next.drop_last() =~= pre);
        assert(next.last() == b);
        proof {
            lemma_split_nonempty(pre);
        }
        if b == 47 {
            let seg = cur;
            done.push(seg);
            cur = Vec::new();
            assert(views(done@).push(cur@) =~= split_slash(next));
        } else {
            let ghost old_done = done@;
            let ghost old_cur = cur@;
            cur.push(b);
            assert(views(done@).push(cur@) =~= split_slash(next)) by {
                assert(views(old_done).push(old_cur) == split_slash(pre));
                assert(split_slash(pre).last() == old_cur);
            }
        }
        i = i + 1;
    }
    assert(path@.subrange(0, path@.len() as int) =~= path@);
    done.push(cur);
    assert(views(done@) =~= split_slash(path@));
    done
}

pub open spec fn is_digit(b: u8) -> bool {
    48 <= b <= 57
}

/// The value of a string of decimal digits.
pub open spec fn digits_value(s: Seq<u8>) -> nat
    decreases s.len(),
{
    if s.len() == 0 {
        0
    } else {
        digits_value(s.drop_last()) * 10 + (s.last() - 48) as nat
    }
}

pub open spec fn all_digits(s: Seq<u8>) -> bool {
    forall|i: int| 0 <= i < s.len() ==> is_digit(#[trigger] s[i])
}

/// An index in a path: one or more decimal digits whose value fits in `usize`.
pub open spec fn spec_parse_index(s: Seq<u8>) -> Option<usize> {
    if s.len() > 0 && all_digits(s) && digits_value(s) <= usize::MAX {
        Some(digits_value(s) as usize)
    } else {
        None
    }
}

proof fn lemma_digits_prefix(s: Seq<u8>, k: int)
    requires
        all_digits(s),
        0 <= k <= s.len(),
    ensures
        digits_value(s.subrange(0, k)) <= digits_value(s),
    decreases s.len(),
{
    if k < s.len() {
        assert(s.drop_last() =~= s.subrange(0, s.len() - 1));
        assert(s.drop_last().subrange(0, k) =~= s.subrange(0, k));
        lemma_digits_prefix(s.drop_last(), k);
    } else {
        assert(s.subrange(0, k) =~= s);
    }
}

pub fn parse_index(s: &[u8]) -> (r: Option<usize>)
    ensures
        r == spec_parse_index(s@),
{
    if s.len() == 0 {
        return None;
    }
    let ghost d = s@;
    let mut acc: usize = 0;
    let mut i: usize = 0;
    assert(d.subrange(0, 0) =~= Seq::<u8>::empty());
    while i < s.len()
        invariant
            i <= s@.len(),
            d == s@,
            all_digits(d.subrange(0, i as int)),
            acc == digits_value(d.subrange(0, i as int)),
        decreases s.len() - i,
    {
        let b = s[i];
        let ghost pre = d.subrange(0, i as int);
        let ghost next = d.subrange(0, i + 1);
        assert(next.drop_last() =~= pre);
        assert(next.last() == b);
        if b < 48 || b > 57 {
            assert(!is_digit(d[i as int]));
            return None;
        }
        match acc.checked_mul(10) {
            Some(m) => match m.checked_add((b - 48) as usize) {
                Some(v) => {
                    acc = v;
                },
                None => {
                    proof {
                        if all_digits(d) {
                            lemma_digits_prefix(d, i + 1);
                            assert(digits_value(next) == acc * 10 + (b - 48));
                        }
                    }
                    return None;
                },
            },
            None => {
                proof {
                    if all_digits(d) {
                        lemma_digits_prefix(d, i + 1);
                    }
                }
                return None;
            },
        }
        assert(all_digits(next)) by {
            assert forall|j: int| 0 <= j < next.len() implies is_digit(#[trigger] next[j]) by {
                if j < pre.len() {
                    assert(next[j] == pre[j]);
                }
            }
        }
        i = i + 1;
    }
    assert(d.subrange(0, i as int) =~= d);
    Some(acc)
}

/// A path with no `/` is one segment.
pub proof fn lemma_split_no_slash(t: Seq<u8>)
    requires
        forall|k: int| 0 <= k < t.len() ==> t[k] != 47u8,
    ensures
        split_slash(t) == seq![t],
    decreases t.len(),
{
    if t.len() > 0 {
        lemma_split_no_slash(t.drop_last());
        assert(t.drop_last().push(t.last()) =~= t);
        assert(split_slash(t) =~= seq![t]);
    } else {
        assert(t =~= Seq::<u8>::empty());
    }
}

/// Joining two paths with a `/` joins their segments.
pub proof fn lemma_split_concat(s: Seq<u8>, t: Seq<u8>)
    ensures
        split_slash(s + seq![47u8] + t) == split_slash(s) + split_slash(t),
    decreases t.len(),
{
    let u = s + seq![47u8] + t;
    if t.len() == 0 {
        assert(u.drop_last() =~= s);
        assert(split_slash(u) =~= split_slash(s) + split_slash(t));
    } else {
        let t0 = t.drop_last();
        lemma_split_concat(s, t0);
        lemma_split_nonempty(t0);
        lemma_split_nonempty(s);
        assert(u.drop_last() =~= s + seq![47u8] + t0);
        assert(u.last() == t.last());
        assert(split_slash(u) =~= split_slash(s) + split_slash(t));
    }
}

/// The decimal digits of `n`, as bytes.
pub open spec fn dec_bytes(n: nat) -> Seq<u8>
    decreases n,
{
    if n < 10 {
        seq![(48 + n) as u8]
    } else {
        dec_bytes(n / 10).push((48 + n % 10) as u8)
    }
}

pub proof fn lemma_dec_bytes(n: nat)
    ensures
        dec_bytes(n).len() > 0,
        all_digits(dec_bytes(n)),
        digits_value(dec_bytes(n)) == n,
        is_digit(dec_bytes(n)[0]),
    decreases n,
{
    if n >= 10 {
        lemma_dec_bytes(n / 10);
        let d = dec_bytes(n);
        assert(d.drop_last() == dec_bytes(n / 10));
        assert(d[0] == dec_bytes(n / 10)[0]);
        assert forall|i: int| 0 <= i < d.len() implies is_digit(#[trigger] d[i]) by {
            if i < d.len() - 1 {
                assert(d[i] == dec_bytes(n / 10)[i]);
            }
        }
        assert(d.last() == (48 + n % 10) as u8);
        assert((d.last() - 48) as nat == n % 10);
        assert(digits_value(d) == digits_value(d.drop_last()) * 10 + (d.last() - 48) as nat);
        assert(digits_value(d.drop_last()) == n / 10);
        assert((n / 10) * 10 + n % 10 == n) by (nonlinear_arith);
    } else {
        let d = dec_bytes(n);
        assert(d.drop_last() =~= Seq::<u8>::empty());
        assert(digits_value(Seq::<u8>::empty()) == 0);
        assert(digits_value(d) == digits_value(d.drop_last()) * 10 + (d.last() - 48) as nat);
        assert((d.last() - 48) as nat == n);
    }
}

/// A number written in decimal parses back to itself.
pub proof fn lemma_parse_dec(n: usize)
    ensures
        spec_parse_index(dec_bytes(n as nat)) == Some(n),
{
    lemma_dec_bytes(n as nat);
}

/// What a request asks for.
#[derive(Debug, Clone, Copy, PartialEq, Eq, Structural)]
pub enum Route {
    Library,
    Manga(usize),
    Cover(usize),
    Page(usize, usize, usize),
    NotFound,
    MethodNotAllowed,
}

/// The index of the work with id bytes `id`, if any.
pub open spec fn lookup(ms: Seq<MangaEntry>, id: Seq<u8>) -> Option<int> {
    if exists|i: int| 0 <= i < ms.len() && #[trigger] ms[i].id@ == id {
        Some(choose|i: int| 0 <= i < ms.len() && #[trigger] ms[i].id@ == id)
    } else {
        None
    }
}

/// `cover`, as bytes.
pub open spec fn cover_segment() -> Seq<u8> {
    seq![99u8, 111u8, 118u8, 101u8, 114u8]
}

/// The route of a path: `/` lists the library, `/<id>` is a work, `/<id>/cover`
/// its cover and `/<id>/<ch>/<pg>` a page; anything else, or an unknown id, is
/// not found, and any method but GET is not allowed.
pub open spec fn spec_route(ms: Seq<MangaEntry>, is_get: bool, path: Seq<u8>) -> Route {
    let segs = split_slash(path).drop_first();
    if !is_get {
        Route::MethodNotAllowed
    } else if segs.len() == 0 || (segs.len() == 1 && segs[0].len() == 0) {
        Route::Library
    } else {
        match lookup(ms, segs[0]) {
            None => Route::NotFound,
            Some(w) => if segs.len() == 1 {
                Route::Manga(w as usize)
            } else if segs[1] == cover_segment() {
                if segs.len() == 2 {
                    Route::Cover(w as usize)
                } else {
                    Route::NotFound
                }
            } else {
                match spec_parse_index(segs[1]) {
                    None => Route::NotFound,
                    Some(ch) => if segs.len() == 2 {
                        Route::NotFound
                    } else {
                        match spec_parse_index(segs[2]) {
                            None => Route::NotFound,
                            Some(pg) => if segs.len() == 3 {
                                Route::Page(w as usize, ch, pg)
                            } else {
                                Route::NotFound
                            },
                        }
                    },
                }
            },
        }
    }
}

fn is_cover_segment(s: &[u8]) -> (r: bool)
    ensures
        r == (s@ == cover_segment()),
{
    let r = s.len() == 5 && s[0] == 99 && s[1] == 111 && s[2] == 118 && s[3] == 101 && s[4] == 114;
    assert(r <==> s@ == cover_segment()) by {
        if s@ == cover_segment() {
            assert(s@[0] == 99u8);
        } else if r {
            assert(s@ =~= cover_segment());
        }
    }
    r
}

pub proof fn lemma_lookup_found(lib: &LibraryEntry, id: Seq<u8>, i: int)
    requires
        lib.wf(),
        0 <= i < lib.mangas@.len(),
        lib.mangas@[i].id@ == id,
    ensures
        lookup(lib.mangas@, id) == Some(i),
{
    let ms = lib.mangas@;
    assert(ms[i].id@ == id);
    let j = choose|j: int| 0 <= j < ms.len() && #[trigger] ms[j].id@ == id;
    if j < i {
        assert(ms[j].id@ != ms[i].id@);
    } else if j > i {
        assert(ms[i].id@ != ms[j].id@);
    }
}

/// Routes a request by its method and path.
pub fn route(lib: &LibraryEntry, is_get: bool, path: &[u8]) -> (r: Route)
    requires
        lib.wf(),
    ensures
        r == spec_route(lib.mangas@, is_get, path@),
{
    if !is_get {
        return Route::MethodNotAllowed;
    }
    let all = split_path(path);
    let ghost segs = split_slash(path@).drop_first();
    proof {
        lemma_split_nonempty(path@);
    }
    let n = all.len() - 1;
    assert(segs.len() == n);
    assert(forall|k: int| 0 <= k < n ==> segs[k] == (#[trigger] all@[k + 1])@);
    if n == 0 || (n == 1 && all[1].len() == 0) {
        return Route::Library;
    }
    let w = match lib.find(all[1].as_slice()) {
        Some(w) => {
            proof {
                lemma_lookup_found(lib, segs[0], w as int);
            }
            w
        },
        None => return Route::NotFound,
    };
    if n == 1 {
        return Route::Manga(w);
    }
    if is_cover_segment(all[2].as_slice()) {
        if n == 2 {
            return Route::Cover(w);
        }
        return Route::NotFound;
    }
    let ch = match parse_index(all[2].as_slice()) {
        Some(ch) => ch,
        None => return Route::NotFound,
    };
    if n == 2 {
        return Route::NotFound;
    }
    let pg = match parse_index(all[3].as_slice()) {
        Some(pg) => pg,
        None => return Route::NotFound,
    };
    if n == 3 {
        Route::Page(w, ch, pg)
    } else {
        Route::NotFound
    }
}

} // verus!
