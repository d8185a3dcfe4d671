//! Byte-key lookup used by the meters' read and write tables.
use vstd::prelude::*;

verus! {

pub fn bytes_equal(a: &[u8], b: &[u8]) -> (r: bool)
    ensures
        r == (a@ == b@),
{
    if a.len() != b.len() {
        return false;
    }
    let mut i: usize = 0;
    while i < a.len()
        invariant
            i <= a@.len(),
            a@.len() == b@.len(),
            forall|j: int| 0 <= j < i ==> a@[j] == b@[j],
        decreases a@.len() - i,
    {
        if a[i] != b[i] {
            return false;
        }
        i = i + 1;
    }
    assert(a@ =~= b@);
    true
}

/// The views of a list of byte keys.
pub open spec fn key_views(keys: Seq<Vec<u8>>) -> Seq<Seq<u8>> {
    keys.map_values(|k: Vec<u8>| k@)
}

pub fn position_of(keys: &Vec<Vec<u8>>, key: &[u8]) -> (r: Option<usize>)
    ensures
        match r {
            Some(i) => i < keys@.len() && key_views(keys@)[i as int] == key@ && forall|j: int|
                0 <= j < i ==> key_views(keys@)[j] != key@,
            None => !key_views(keys@).contains(key@),
        },
{
    let mut i: usize = 0;
    while i < keys.len()
        invariant
            i <= keys@.len(),
            forall|j: int| 0 <= j < i ==> key_views(keys@)[j] != key@,
        decreases keys@.len() - i,
    {
        if bytes_equal(keys[i].as_slice(), key) {
            return Some(i);
        }
        i = i + 1;
    }
    proof {
        let kv = key_views(keys@);
        if kv.contains(key@) {
            let j = choose|j: int| 0 <= j < kv.len() && kv[j] == key@;
            assert(false);
        }
    }
    None
}

/// A copy of a byte slice.
pub fn to_vec(data: &[u8]) -> (r: Vec<u8>)
    ensures
        r@ == data@,
{
    let mut out: Vec<u8> = Vec::new();
    crate::bytes::push_all(&mut out, data);
    assert(out@ =~= data@);
    out
}

/// The sum of a sequence of costs.
pub open spec fn seq_sum(s: Seq<u64>) -> int
    decreases s.len(),
{
    if s.len() == 0 {
        0
    } else {
        seq_sum(s.drop_last()) + s.last()
    }
}

pub proof fn lemma_seq_sum_push(s: Seq<u64>, x: u64)
    ensures
        seq_sum(s.push(x)) == seq_sum(s) + x,
{
    assert(s.push(x).drop_last() =~= s);
}

pub proof fn lemma_seq_sum_update(s: Seq<u64>, i: int, x: u64)
    requires
        0 <= i < s.len(),
    ensures
        seq_sum(s.update(i, x)) == seq_sum(s) - s[i] + x,
        seq_sum(s) >= s[i],
    decreases s.len(),
{
    if i == s.len() - 1 {
        assert(s.update(i, x).drop_last() =~= s.drop_last());
        lemma_seq_sum_nonneg(s.drop_last());
    } else {
        assert(s.update(i, x).drop_last() =~= s.drop_last().update(i, x));
        lemma_seq_sum_update(s.drop_last(), i, x);
    }
}

pub proof fn lemma_seq_sum_nonneg(s: Seq<u64>)
    ensures
        seq_sum(s) >= 0,
    decreases s.len(),
{
    if s.len() > 0 {
        lemma_seq_sum_nonneg(s.drop_last());
    }
}

} // verus!
