//! Fixed-size byte values shared by the modules.
use vstd::prelude::*;

verus! {

/// A 32-byte hash.
pub type H256 = [u8; 32];

/// A 20-byte account address.
pub type Address = [u8; 20];

/// Whether two byte arrays hold the same bytes.
pub fn bytes_eq<const N: usize>(a: &[u8; N], b: &[u8; N]) -> (r: bool)
    ensures
        r == (a@ == b@),
{
    let mut i: usize = 0;
    while i < N
        invariant
            i <= N,
            a@.len() == N,
            b@.len() == N,
            forall|j: int| 0 <= j < i ==> a@[j] == b@[j],
        decreases N - i,
    {
        if a[i] != b[i] {
            return false;
        }
        i = i + 1;
    }
    assert(a@ =~= b@);
    true
}

/// Whether all bytes are zero (the default hash).
pub fn is_zero_hash(h: &H256) -> (r: bool)
    ensures
        r == (forall|j: int| 0 <= j < 32 ==> h@[j] == 0u8),
{
    let mut i: usize = 0;
    while i < 32
        invariant
            i <= 32,
            h@.len() == 32,
            forall|j: int| 0 <= j < i ==> h@[j] == 0u8,
        decreases 32 - i,
    {
        if h[i] != 0 {
            return false;
        }
        i = i + 1;
    }
    true
}

/// The items of `v` in reverse order.
pub fn reversed<T>(v: Vec<T>) -> (r: Vec<T>)
    ensures
        r@ == v@.reverse(),
{
    let mut list = v;
    let ghost all = list@;
    let n = list.len();
    let mut out: Vec<T> = Vec::new();
    while list.len() > 0
        invariant
            list@ == all.take(list@.len() as int),
            list@.len() <= n,
            n == all.len(),
            out@ == all.subrange(list@.len() as int, n as int).reverse(),
        decreases list@.len(),
    {
        let ghost k = list@.len();
        let x = list.pop().unwrap();
        proof {
            assert(all.take(k as int).drop_last() =~= all.take(k - 1));
        }
        out.push(x);
        proof {
            assert(out@ =~= all.subrange(k - 1, n as int).reverse());
        }
    }
    assert(all.subrange(0, n as int) =~= all);
    out
}

} // verus!
