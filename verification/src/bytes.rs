//! Small verified helpers on byte buffers, shared by the other modules.

use vstd::prelude::*;

verus! {

/// Length of a public key / program id, in bytes.
pub const KEY_LEN: usize = 32;

/// Every byte of the sequence is zero.
pub open spec fn all_zero(s: Seq<u8>) -> bool {
    forall|i: int| 0 <= i < s.len() ==> s[i] == 0
}

/// True exactly when the two buffers hold the same bytes.
pub fn bytes_eq(a: &Vec<u8>, b: &Vec<u8>) -> (r: bool)
    ensures
        r == (a@ == b@),
{
    if a.len() != b.len() {
        assert(a@ != b@) by {
            assert(a@.len() != b@.len());
        }
        return false;
    }
    let n = a.len();
    let mut i: usize = 0;
    while i < n
        invariant
            n == a@.len() == b@.len(),
            0 <= i <= n,
            forall|j: int| 0 <= j < i ==> a@[j] == b@[j],
        decreases n - i,
    {
        if a[i] != b[i] {
            return false;
        }
        i += 1;
    }
    proof {
        assert(a@ =~= b@);
    }
    true
}

/// A fresh copy of the buffer.
pub fn copy_bytes(src: &Vec<u8>) -> (r: Vec<u8>)
    ensures
        r@ == src@,
{
    let n = src.len();
    let mut out: Vec<u8> = Vec::new();
    let mut i: usize = 0;
    while i < n
        invariant
            n == src@.len(),
            0 <= i <= n,
            out@ == src@.subrange(0, i as int),
        decreases n - i,
    {
        out.push(src[i]);
        proof {
            assert(out@ =~= src@.subrange(0, i + 1 as int));
        }
        i += 1;
    }
    proof {
        assert(src@.subrange(0, n as int) =~= src@);
    }
    out
}

/// True exactly when every byte of the buffer is zero.
pub fn is_all_zero(a: &Vec<u8>) -> (r: bool)
    ensures
        r == all_zero(a@),
{
    let n = a.len();
    let mut i: usize = 0;
    while i < n
        invariant
            n == a@.len(),
            0 <= i <= n,
            forall|j: int| 0 <= j < i ==> a@[j] == 0,
        decreases n - i,
    {
        if a[i] != 0 {
            return false;
        }
        i += 1;
    }
    true
}

} // verus!
