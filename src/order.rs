use vstd::prelude::*;

verus! {

/// Byte-wise lexicographic order: `a` sorts no later than `b`.
pub open spec fn lex_le(a: Seq<u8>, b: Seq<u8>) -> bool
    decreases a.len(),
{
    if a.len() == 0 {
        true
    } else if b.len() == 0 {
        false
    } else if a[0] != b[0] {
        a[0] < b[0]
    } else {
        lex_le(a.drop_first(), b.drop_first())
    }
}

pub proof fn lemma_lex_total(a: Seq<u8>, b: Seq<u8>)
    ensures
        lex_le(a, b) || lex_le(b, a),
    decreases a.len(),
{
    if a.len() > 0 && b.len() > 0 && a[0] == b[0] {
        lemma_lex_total(a.drop_first(), b.drop_first());
    }
}

pub proof fn lemma_lex_trans(a: Seq<u8>, b: Seq<u8>, c: Seq<u8>)
    requires
        lex_le(a, b),
        lex_le(b, c),
    ensures
        lex_le(a, c),
    decreases a.len(),
{
    if a.len() > 0 && b.len() > 0 && c.len() > 0 && a[0] == b[0] && b[0] == c[0] {
        lemma_lex_trans(a.drop_first(), b.drop_first(), c.drop_first());
    }
}

/// Compares two byte strings in byte-wise lexicographic order.
pub fn bytes_le(a: &[u8], b: &[u8]) -> (r: bool)
    ensures
        r == lex_le(a@, b@),
{
    let mut i: usize = 0;
    assert(a@.skip(0) =~= a@);
    assert(b@.skip(0) =~= b@);
    while i < a.len() && i < b.len()
        invariant
            i <= a@.len(),
            i <= b@.len(),
            lex_le(a@, b@) == lex_le(a@.skip(i as int), b@.skip(i as int)),
        decreases a.len() - i,
    {
        assert(a@.skip(i as int).drop_first() =~= a@.skip(i + 1));
        assert(b@.skip(i as int).drop_first() =~= b@.skip(i + 1));
        if a[i] != b[i] {
            return a[i] < b[i];
        }
        i = i + 1;
    }
    i == a.len()
}

/// Whether two byte strings are equal.
pub fn bytes_eq(a: &[u8], b: &[u8]) -> (r: bool)
    ensures
        r == (a@ == b@),
{
    if a.len() != b.len() {
        return false;
    }
    let mut i: usize = 0;
    while i < a.len()
        invariant
            a@.len() == b@.len(),
            i <= a@.len(),
            forall|j: int| 0 <= j < i ==> a@[j] == b@[j],
        decreases a.len() - i,
    {
        if a[i] != b[i] {
            return false;
        }
        i = i + 1;
    }
    assert(a@ =~= b@);
    true
}

/// Appends the bytes of `b`.
pub fn append_bytes(out: &mut Vec<u8>, b: &[u8])
    ensures
        final(out)@ == old(out)@ + b@,
{
    let mut i: usize = 0;
    while i < b.len()
        invariant
            i <= b@.len(),
            out@ == old(out)@ + b@.subrange(0, i as int),
        decreases b.len() - i,
    {
        out.push(b[i]);
        i = i + 1;
        assert(out@ =~= old(out)@ + b@.subrange(0, i as int));
    }
    assert(b@.subrange(0, b@.len() as int) =~= b@);
}

/// `p` lists each index below `n` exactly once.
pub open spec fn is_perm(p: Seq<usize>, n: nat) -> bool {
    &&& p.len() == n
    &&& forall|i: int| 0 <= i < p.len() ==> p[i] < n
    &&& forall|i: int, j: int| 0 <= i < j < p.len() ==> p[i] != p[j]
}

/// Taking the keys in the order `p` gives them in byte-wise ascending order.
pub open spec fn sorted_by(keys: Seq<Seq<u8>>, p: Seq<usize>) -> bool {
    forall|i: int, j: int| 0 <= i < j < p.len() ==> lex_le(keys[p[i] as int], keys[p[j] as int])
}

/// The views of a list of byte strings.
pub open spec fn views(v: Seq<Vec<u8>>) -> Seq<Seq<u8>> {
    v.map_values(|b: Vec<u8>| b@)
}

/// The order in which to take `keys` so that they ascend byte-wise.
pub fn sorted_order(keys: &Vec<Vec<u8>>) -> (p: Vec<usize>)
    ensures
        is_perm(p@, keys@.len()),
        sorted_by(views(keys@), p@),
{
    let ghost ks = views(keys@);
    let mut p: Vec<usize> = Vec::new();
    let mut k: usize = 0;
    while k < keys.len()
        invariant
            k <= keys@.len(),
            ks == views(keys@),
            is_perm(p@, k as nat),
            sorted_by(ks, p@),
        decreases keys.len() - k,
    {
        let mut pos: usize = 0;
        while pos < p.len() && bytes_le(keys[p[pos]].as_slice(), keys[k].as_slice())
            invariant
                k < keys@.len(),
                ks == views(keys@),
                is_perm(p@, k as nat),
                pos <= p@.len(),
                forall|j: int| 0 <= j < pos ==> lex_le(ks[p@[j] as int], ks[k as int]),
            decreases p.len() - pos,
        {
            pos = pos + 1;
        }
        let ghost old_p = p@;
        p.insert(pos, k);
        proof {
            assert(p@ == old_p.insert(pos as int, k));
            if pos < old_p.len() {
                lemma_lex_total(ks[old_p[pos as int] as int], ks[k as int]);
            }
            assert forall|i: int, j: int| 0 <= i < j < p@.len() implies lex_le(
                ks[p@[i] as int],
                ks[p@[j] as int],
            ) by {
                if j == pos {
                } else if i == pos {
                    assert(p@[j] == old_p[j - 1]);
                    if j - 1 > pos {
                        lemma_lex_trans(
                            ks[k as int],
                            ks[old_p[pos as int] as int],
                            ks[old_p[j - 1] as int],
                        );
                    }
                } else if i < pos && j > pos {
                    assert(p@[j] == old_p[j - 1]);
                } else if i > pos {
                    assert(p@[i] == old_p[i - 1]);
                    assert(p@[j] == old_p[j - 1]);
                }
            }
        }
        k = k + 1;
    }
    p
}

} // verus!
