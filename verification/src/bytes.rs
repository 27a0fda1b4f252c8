//! Byte-buffer helpers shared by the transfer code: SHA-256 digests,
//! digest comparison, writing a chunk into a buffer, and splitting data
//! into fixed-size chunks.
use sha2::{Digest, Sha256};
use vstd::prelude::*;

verus! {

/// The SHA-256 digest of `data` (32 bytes).
pub uninterp spec fn sha256_of(data: Seq<u8>) -> Seq<u8>;

/// `sha2::Sha256::digest`: the SHA-256 digest of `data`, which depends on
/// `data` alone.
#[verifier::external_body]
fn sha256_digest(data: &[u8]) -> (h: [u8; 32])
    ensures
        h@ == sha256_of(data@),
{
    Sha256::digest(data).into()
}

/// Compute the SHA-256 hash of a byte slice.
pub fn compute_sha256(data: &[u8]) -> (h: [u8; 32])
    ensures
        h@ == sha256_of(data@),
{
    sha256_digest(data)
}

/// Whether two digests are equal.
pub fn digests_equal(a: &[u8; 32], b: &[u8; 32]) -> (r: bool)
    ensures
        r == (a@ == b@),
{
    let mut i: usize = 0;
    while i < 32
        invariant
            i <= 32,
            a@.len() == 32,
            b@.len() == 32,
            forall|j: int| 0 <= j < i ==> a@[j] == b@[j],
        decreases 32 - i,
    {
        if a[i] != b[i] {
            return false;
        }
        i = i + 1;
    }
    assert(a@ =~= b@);
    true
}

/// `buf` with `chunk` written over it from position `start`.
pub open spec fn write_at(buf: Seq<u8>, start: int, chunk: Seq<u8>) -> Seq<u8> {
    buf.take(start) + chunk + buf.skip(start + chunk.len())
}

/// Write `chunk` into `buf` from position `start`.
pub fn copy_into(buf: &mut Vec<u8>, start: usize, chunk: &[u8])
    requires
        start + chunk@.len() <= old(buf)@.len(),
    ensures
        final(buf)@ == write_at(old(buf)@, start as int, chunk@),
{
    let n = chunk.len();
    let blen = buf.len();
    let ghost b0 = buf@;
    let mut i: usize = 0;
    while i < n
        invariant
            n == chunk@.len(),
            i <= n,
            start + n <= b0.len(),
            buf@.len() == b0.len(),
            blen == b0.len(),
            buf@ == write_at(b0, start as int, chunk@.take(i as int)),
        decreases n - i,
    {
        
        buf.set(start + i, chunk[i]);
        assert(buf@ =~= write_at(b0, start as int, chunk@.take(i + 1)));
        i = i + 1;
    }
    assert(chunk@.take(n as int) =~= chunk@);
}

/// A zero-filled buffer of `n` bytes.
pub fn zeroed(n: usize) -> (v: Vec<u8>)
    ensures
        v@ == Seq::new(n as nat, |i: int| 0u8),
{
    let mut v: Vec<u8> = Vec::with_capacity(n);
    let mut i: usize = 0;
    while i < n
        invariant
            i <= n,
            v@ == Seq::new(i as nat, |j: int| 0u8),
        decreases n - i,
    {
        v.push(0);
        assert(v@ =~= Seq::new((i + 1) as nat, |j: int| 0u8));
        i = i + 1;
    }
    v
}

/// The bytes `data[start..end]` as a vector.
pub fn slice_to_vec(data: &[u8], start: usize, end: usize) -> (v: Vec<u8>)
    requires
        start <= end <= data@.len(),
    ensures
        v@ == data@.subrange(start as int, end as int),
{
    let mut v: Vec<u8> = Vec::new();
    let mut i = start;
    while i < end
        invariant
            start <= i <= end,
            end <= data@.len(),
            v@ == data@.subrange(start as int, i as int),
        decreases end - i,
    {
        v.push(data[i]);
        assert(v@ =~= data@.subrange(start as int, i + 1));
        i = i + 1;
    }
    v
}

/// Number of chunks of `size` bytes needed for `len` bytes.
pub open spec fn chunk_count(len: nat, size: nat) -> nat {
    if len == 0 {
        0
    } else {
        ((len - 1) / (size as int) + 1) as nat
    }
}

/// `chunks` split `data` into consecutive pieces of `size` bytes (the last
/// one possibly shorter), each paired with its offset.
pub open spec fn is_chunking(data: Seq<u8>, size: nat, chunks: Seq<(u64, Seq<u8>)>) -> bool {
    &&& chunks.len() == chunk_count(data.len(), size)
    &&& forall|i: int|
        0 <= i < chunks.len() ==> {
            let off = i * size;
            let end = if off + size <= data.len() { off + size } else { data.len() as int };
            &&& (#[trigger] chunks[i]).0 == off
            &&& chunks[i].1 == data.subrange(off, end)
        }
}

proof fn lemma_chunk_count_step(k: nat, size: nat, end: nat)
    requires
        size > 0,
        k * size < end <= k * size + size,
    ensures
        chunk_count(end, size) == k + 1,
{
    assert((end - 1) / (size as int) == k) by {
        vstd::arithmetic::div_mod::lemma_fundamental_div_mod_converse(
            end - 1,
            size as int,
            k as int,
            end - 1 - k * size,
        );
    }
}

/// Split `data` into chunks of `size` bytes with their offsets.
pub fn split_chunks(data: &[u8], size: usize) -> (chunks: Vec<(u64, Vec<u8>)>)
    requires
        size > 0,
    ensures
        is_chunking(data@, size as nat, chunks@.map_values(|c: (u64, Vec<u8>)| (c.0, c.1@))),
{
    let n = data.len();
    let mut chunks: Vec<(u64, Vec<u8>)> = Vec::new();
    let mut off: usize = 0;
    let mut k: usize = 0;
    while off < n
        invariant
            n == data@.len(),
            size > 0,
            off <= n,
            off < n ==> off == k * size,
            k == chunk_count(off as nat, size as nat),
            chunks@.len() == k,
            forall|i: int|
                0 <= i < k ==> {
                    let o = i * size;
                    let e = if o + size <= n { o + size } else { n as int };
                    &&& (#[trigger] chunks@[i]).0 == o
                    &&& chunks@[i].1@ == data@.subrange(o, e)
                },
        decreases n - off,
    {
        let end = if n - off >= size {
            off + size
        } else {
            n
        };
        let piece = slice_to_vec(data, off, end);
        proof {
            assert(k * size + size == (k + 1) * size) by (nonlinear_arith);
        }
        chunks.push((off as u64, piece));
        proof {
            lemma_chunk_count_step(k as nat, size as nat, end as nat);
        }
        off = end;
        k = k + 1;
    }
    proof {
        if n == 0 {
            assert(k == 0);
        }
        let mv = chunks@.map_values(|c: (u64, Vec<u8>)| (c.0, c.1@));
        assert forall|i: int| 0 <= i < mv.len() implies {
            let o = i * size;
            let e = if o + size <= n { o + size } else { n as int };
            &&& (#[trigger] mv[i]).0 == o
            &&& mv[i].1 == data@.subrange(o, e)
        } by {
            assert(chunks@[i].0 == i * size);
        }
    }
    chunks
}

} // verus!
