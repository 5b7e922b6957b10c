//! Finding the report documents that a mail body carries as plain text.
use vstd::prelude::*;

verus! {

/// The bytes `<feedback`, which open a report document.
pub open spec fn open_tag() -> Seq<u8> {
    seq![60u8, 102u8, 101u8, 101u8, 100u8, 98u8, 97u8, 99u8, 107u8]
}

/// The bytes `</feedback>`, which close a report document.
pub open spec fn close_tag() -> Seq<u8> {
    seq![60u8, 47u8, 102u8, 101u8, 101u8, 100u8, 98u8, 97u8, 99u8, 107u8, 62u8]
}

fn open_tag_bytes() -> (r: Vec<u8>)
    ensures
        r@ == open_tag(),
{
    vec![60u8, 102u8, 101u8, 101u8, 100u8, 98u8, 97u8, 99u8, 107u8]
}

fn close_tag_bytes() -> (r: Vec<u8>)
    ensures
        r@ == close_tag(),
{
    vec![60u8, 47u8, 102u8, 101u8, 101u8, 100u8, 98u8, 97u8, 99u8, 107u8, 62u8]
}

pub open spec fn occurs_at(s: Seq<u8>, i: int, p: Seq<u8>) -> bool {
    0 <= i && i + p.len() <= s.len() && s.subrange(i, i + p.len()) == p
}

/// The first index at or after `i` where `p` occurs in `s`, or the length of `s`.
pub open spec fn find_seq(s: Seq<u8>, i: int, p: Seq<u8>) -> int
    decreases s.len() - i,
{
    if i < 0 || i >= s.len() {
        s.len() as int
    } else if occurs_at(s, i, p) {
        i
    } else {
        find_seq(s, i + 1, p)
    }
}

/// The report documents in `s` from index `i` on: each runs from an opening
/// `<feedback` to the first `</feedback>` after it, in order.
pub open spec fn documents_from(s: Seq<u8>, i: int) -> Seq<Seq<u8>>
    decreases s.len() - i,
{
    let a = find_seq(s, i, open_tag());
    let b = find_seq(s, a + open_tag().len(), close_tag());
    if i < 0 || a < i || b + close_tag().len() > s.len() || b < a {
        Seq::empty()
    } else {
        seq![s.subrange(a, b + close_tag().len())] + documents_from(s, b + close_tag().len())
    }
}

fn occurs(s: &[u8], i: usize, p: &Vec<u8>) -> (r: bool)
    ensures
        r == occurs_at(s@, i as int, p@),
{
    if i > s.len() || p.len() > s.len() - i {
        return false;
    }
    let n = s.len();
    let mut k: usize = 0;
    while k < p.len()
        invariant
            n == s@.len(),
            i + p@.len() <= s@.len(),
            k <= p@.len(),
            forall|m: int| 0 <= m < k ==> s@[i + m] == p@[m],
        decreases p@.len() - k,
    {
        if s[i + k] != p[k] {
            assert(s@.subrange(i as int, i + p@.len())[k as int] != p@[k as int]);
            return false;
        }
        k += 1;
    }
    assert(s@.subrange(i as int, i + p@.len()) =~= p@);
    true
}

/// The first index at or after `i` where `p` occurs in `s`, or the length of `s`.
pub fn find_bytes(s: &[u8], i: usize, p: &Vec<u8>) -> (r: usize)
    requires
        i <= s@.len(),
    ensures
        r as int == find_seq(s@, i as int, p@),
        i <= r <= s@.len(),
{
    let mut k = i;
    while k < s.len()
        invariant
            i <= k <= s@.len(),
            find_seq(s@, i as int, p@) == find_seq(s@, k as int, p@),
        decreases s@.len() - k,
    {
        if occurs(s, k, p) {
            return k;
        }
        k += 1;
    }
    k
}

/// The report documents that a mail body holds as plain text, in order.
pub fn extract_documents(s: &[u8]) -> (r: Vec<Vec<u8>>)
    ensures
        r@.map_values(|d: Vec<u8>| d@) == documents_from(s@, 0),
{
    let open = open_tag_bytes();
    let close = close_tag_bytes();
    let mut out: Vec<Vec<u8>> = Vec::new();
    let mut i: usize = 0;
    loop
        invariant
            i <= s@.len(),
            open@ == open_tag(),
            close@ == close_tag(),
            documents_from(s@, 0) == out@.map_values(|d: Vec<u8>| d@) + documents_from(
                s@,
                i as int,
            ),
        decreases s@.len() - i,
    {
        let ghost before = out@.map_values(|d: Vec<u8>| d@);
        let a = find_bytes(s, i, &open);
        if a >= s.len() || s.len() - a < open.len() {
            assert(documents_from(s@, i as int) =~= Seq::<Seq<u8>>::empty());
            assert(before + Seq::<Seq<u8>>::empty() =~= before);
            return out;
        }
        let b = find_bytes(s, a + open.len(), &close);
        if b >= s.len() || s.len() - b < close.len() {
            assert(documents_from(s@, i as int) =~= Seq::<Seq<u8>>::empty());
            assert(before + Seq::<Seq<u8>>::empty() =~= before);
            return out;
        }
        let end = b + close.len();
        let doc = vstd::slice::slice_to_vec(&s[a..end]);
        out.push(doc);
        proof {
            assert(out@.map_values(|d: Vec<u8>| d@) =~= before + seq![s@.subrange(a as int, end as int)]);
            assert(before + (seq![s@.subrange(a as int, end as int)] + documents_from(s@, end as int))
                =~= (before + seq![s@.subrange(a as int, end as int)]) + documents_from(s@, end as int));
        }
        i = end;
    }
}

} // verus!
