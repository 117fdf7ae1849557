use vstd::arithmetic::div_mod::lemma_fundamental_div_mod_converse;
use vstd::arithmetic::mul::{lemma_mul_inequality, lemma_mul_is_distributive_add_other_way};
use vstd::math::min;
use vstd::prelude::*;

verus! {

/// One contiguous, offset-tagged slice of the payload, sized to fit one
/// transaction. The offset is the chunk's byte position in the payload.
pub struct Chunk {
    pub offset: u32,
    pub bytes: Vec<u8>,
}

/// The mathematical model of a chunk: its offset and its byte sequence.
pub ghost struct ChunkModel {
    pub offset: int,
    pub bytes: Seq<u8>,
}

impl View for Chunk {
    type V = ChunkModel;

    open spec fn view(&self) -> ChunkModel {
        ChunkModel { offset: self.offset as int, bytes: self.bytes@ }
    }
}

/// The models of a sequence of chunks.
pub open spec fn chunk_models(s: Seq<Chunk>) -> Seq<ChunkModel> {
    s.map_values(|c: Chunk| c@)
}

/// How many batches of size `b` a sequence of length `len` splits into: the
/// ceiling of `len / b`.
pub open spec fn spec_batch_count(len: int, b: int) -> int {
    (len + b - 1) / b
}

/// Batch `i` of a sequence split into batches of size `b`: the elements from
/// `i * b` up to the next batch boundary or the end of the sequence.
pub open spec fn spec_batch_at<T>(s: Seq<T>, b: int, i: int) -> Seq<T> {
    s.subrange(i * b, min((i + 1) * b, s.len() as int))
}

/// The chunk at index `k` when payload `p` is split at chunk size `c`.
pub open spec fn spec_chunk_at(p: Seq<u8>, c: int, k: int) -> ChunkModel {
    ChunkModel { offset: k * c, bytes: spec_batch_at(p, c, k) }
}

/// The full chunking of payload `p` at chunk size `c`: `ceil(len / c)` chunks,
/// the chunk at index `k` starting at offset `k * c`, the last one possibly
/// shorter than `c`.
pub open spec fn spec_chunks(p: Seq<u8>, c: int) -> Seq<ChunkModel>
    recommends
        c > 0,
{
    Seq::new(spec_batch_count(p.len() as int, c) as nat, |k: int| spec_chunk_at(p, c, k))
}

/// The bytes of a sequence of chunks, concatenated in sequence order.
pub open spec fn concat_bytes(s: Seq<ChunkModel>) -> Seq<u8>
    decreases s.len(),
{
    if s.len() == 0 {
        Seq::empty()
    } else {
        concat_bytes(s.drop_last()) + s.last().bytes
    }
}

/// The batch count is the unique `n` with `(n - 1) * b < len <= n * b`
/// (and `0` exactly for an empty sequence).
pub proof fn lemma_batch_count_bounds(len: int, b: int)
    requires
        b > 0,
        len >= 0,
    ensures
        spec_batch_count(len, b) >= 0,
        spec_batch_count(len, b) * b >= len,
        len > 0 ==> (spec_batch_count(len, b) - 1) * b < len,
        len > 0 ==> spec_batch_count(len, b) > 0,
        len == 0 ==> spec_batch_count(len, b) == 0,
{
    let n = spec_batch_count(len, b);
    lemma_batch_count_unique_helper(len, b);
    assert(len + b - 1 == n * b + ((len + b - 1) % b));
}

/// Division facts shared by the counting lemmas: the remainder form of
/// `len + b - 1` divided by `b`.
proof fn lemma_batch_count_unique_helper(len: int, b: int)
    requires
        b > 0,
        len >= 0,
    ensures
        spec_batch_count(len, b) >= 0,
        spec_batch_count(len, b) * b >= len,
        len > 0 ==> (spec_batch_count(len, b) - 1) * b < len,
        len > 0 ==> spec_batch_count(len, b) > 0,
        len == 0 ==> spec_batch_count(len, b) == 0,
        len + b - 1 == spec_batch_count(len, b) * b + ((len + b - 1) % b),
{
    let x = len + b - 1;
    let n = x / b;
    let r = x % b;
    vstd::arithmetic::div_mod::lemma_fundamental_div_mod(x, b);
    vstd::arithmetic::div_mod::lemma_mod_bound(x, b);
    assert(x == b * n + r);
    assert(n * b == b * n) by {
        vstd::arithmetic::mul::lemma_mul_is_commutative(n, b);
    }
    // n * b == len + b - 1 - r; with 0 <= r < b this pins n * b around len.
    assert(n * b >= len);
    if len > 0 {
        assert((n - 1) * b == n * b - b) by {
            lemma_mul_is_distributive_add_other_way(b, n, -1);
        }
        assert((n - 1) * b < len);
        if n <= 0 {
            assert(n * b <= 0) by {
                lemma_mul_inequality(n, 0, b);
            }
        }
    }
    if len == 0 {
        assert(n >= 0) by {
            vstd::arithmetic::div_mod::lemma_div_pos_is_pos(x, b);
        }
        if n > 0 {
            assert(1 * b <= n * b) by {
                lemma_mul_inequality(1, n, b);
            }
        }
    } else {
        assert(n >= 0) by {
            vstd::arithmetic::div_mod::lemma_div_pos_is_pos(x, b);
        }
    }
}

/// Splits a sequence of values into consecutive batches of `batch_size`
/// elements, the last batch possibly shorter. No batch is empty, none exceeds
/// `batch_size`, and the batches concatenate back to the input in order.
pub fn get_vec_with_batched_data<T: Copy>(batch_size: usize, base_vec: &Vec<T>) -> (r: Vec<
    Vec<T>,
>)
    requires
        batch_size > 0,
    ensures
        r@.len() == spec_batch_count(base_vec@.len() as int, batch_size as int),
        forall|i: int|
            0 <= i < r@.len() ==> (#[trigger] r@[i])@ == spec_batch_at(
                base_vec@,
                batch_size as int,
                i,
            ),
{
    let len = base_vec.len();
    let ghost b = batch_size as int;
    let mut batches: Vec<Vec<T>> = Vec::new();
    let mut offset: usize = 0;
    proof {
        assert(0int * b == 0) by {
            vstd::arithmetic::mul::lemma_mul_basics(b);
        }
    }
    while offset < len
        invariant
            batch_size > 0,
            b == batch_size as int,
            len == base_vec@.len(),
            offset as int == min(batches@.len() as int * b, len as int),
            batches@.len() > 0 ==> (batches@.len() as int - 1) * b < len as int,
            forall|i: int|
                0 <= i < batches@.len() ==> (#[trigger] batches@[i])@ == spec_batch_at(
                    base_vec@,
                    b,
                    i,
                ),
        decreases len - offset,
    {
        let ghost nb = batches@.len() as int;
        proof {
            // offset == min(nb * b, len) and offset < len force offset == nb * b.
            assert(offset as int == nb * b);
            assert((nb + 1) * b == nb * b + b) by {
                lemma_mul_is_distributive_add_other_way(b, nb, 1);
            }
        }
        let end = if len - offset > batch_size {
            offset + batch_size
        } else {
            len
        };
        let mut batch: Vec<T> = Vec::new();
        let mut j = offset;
        while j < end
            invariant
                offset <= j <= end <= len,
                len == base_vec@.len(),
                batch@ == base_vec@.subrange(offset as int, j as int),
            decreases end - j,
        {
            batch.push(base_vec[j]);
            j = j + 1;
            proof {
                assert(batch@ =~= base_vec@.subrange(offset as int, j as int));
            }
        }
        proof {
            assert(end as int == min((nb + 1) * b, len as int));
            assert(batch@ == spec_batch_at(base_vec@, b, nb));
        }
        batches.push(batch);
        offset = end;
    }
    proof {
        let nb = batches@.len() as int;
        if nb > 0 {
            assert(nb * b >= len as int);
        }
        lemma_batch_count_unique(len as int, b, nb);
    }
    batches
}

/// Splits the payload into offset-tagged chunks of `chunk_size` bytes, the
/// last chunk possibly shorter: exactly the chunking `spec_chunks` describes,
/// covering the whole payload with no gaps or overlaps.
pub fn chunk_payload(payload: &Vec<u8>, chunk_size: u32) -> (r: Vec<Chunk>)
    requires
        chunk_size > 0,
        payload@.len() <= u32::MAX,
    ensures
        chunk_models(r@) == spec_chunks(payload@, chunk_size as int),
        r@.len() == spec_batch_count(payload@.len() as int, chunk_size as int),
{
    let ghost c = chunk_size as int;
    let ghost p = payload@;
    let batches = get_vec_with_batched_data(chunk_size as usize, payload);
    proof {
        lemma_batch_count_bounds(p.len() as int, c);
    }
    let n = batches.len();
    let mut r: Vec<Chunk> = Vec::new();
    let mut i: usize = 0;
    while i < n
        invariant
            chunk_size > 0,
            c == chunk_size as int,
            p == payload@,
            p.len() <= u32::MAX,
            n == batches@.len(),
            n as int == spec_batch_count(p.len() as int, c),
            (n - 1) * c < p.len() <= n * c || n == 0,
            forall|k: int|
                0 <= k < n ==> (#[trigger] batches@[k])@ == spec_batch_at(p, c, k),
            r@.len() == i <= n,
            forall|k: int| 0 <= k < i ==> (#[trigger] r@[k])@ == spec_chunk_at(p, c, k),
        decreases n - i,
    {
        proof {
            // i * c stays below the payload length, hence below u32::MAX.
            assert(i as int * c <= (n - 1) * c) by {
                lemma_mul_inequality(i as int, n as int - 1, c);
            }
        }
        let off64: u64 = (i as u64) * (chunk_size as u64);
        let bytes = copy_bytes(&batches[i]);
        r.push(Chunk { offset: off64 as u32, bytes });
        i = i + 1;
    }
    proof {
        assert(chunk_models(r@) =~= spec_chunks(p, c));
    }
    r
}

/// An owned copy of a chunk: same offset, same bytes.
pub fn clone_chunk(c: &Chunk) -> (r: Chunk)
    ensures
        r@ == c@,
{
    Chunk { offset: c.offset, bytes: copy_bytes(&c.bytes) }
}

/// An owned copy of a byte vector.
pub(crate) fn copy_bytes(src: &Vec<u8>) -> (r: Vec<u8>)
    ensures
        r@ == src@,
{
    let mut r: Vec<u8> = Vec::new();
    let mut j: usize = 0;
    let len = src.len();
    while j < len
        invariant
            j <= len == src@.len(),
            r@ == src@.subrange(0, j as int),
        decreases len - j,
    {
        r.push(src[j]);
        j = j + 1;
        proof {
            assert(r@ =~= src@.subrange(0, j as int));
        }
    }
    proof {
        assert(r@ =~= src@);
    }
    r
}

/// Every batch of a split sequence is non-empty and no longer than the batch
/// size, for any input length: the ceiling that bounds each status query.
pub proof fn lemma_batch_size_bounds<T>(s: Seq<T>, b: int, i: int)
    requires
        b > 0,
        0 <= i < spec_batch_count(s.len() as int, b),
    ensures
        0 < spec_batch_at(s, b, i).len() <= b,
{
    let len = s.len() as int;
    let n = spec_batch_count(len, b);
    lemma_batch_count_bounds(len, b);
    assert(i * b >= 0) by {
        lemma_mul_inequality(0, i, b);
        vstd::arithmetic::mul::lemma_mul_basics(b);
    }
    assert(i * b <= (n - 1) * b) by {
        lemma_mul_inequality(i, n - 1, b);
    }
    assert((i + 1) * b == i * b + b) by {
        lemma_mul_is_distributive_add_other_way(b, i, 1);
    }
}

/// Concatenating the chunks of a payload in offset order reconstructs the
/// payload exactly, for every payload and chunk size.
pub proof fn lemma_chunks_reconstruct(p: Seq<u8>, c: int)
    requires
        c > 0,
    ensures
        concat_bytes(spec_chunks(p, c)) == p,
    decreases p.len(),
{
    let len = p.len() as int;
    let n = spec_batch_count(len, c);
    lemma_batch_count_bounds(len, c);
    if p.len() == 0 {
        assert(spec_chunks(p, c) =~= Seq::<ChunkModel>::empty());
        assert(concat_bytes(spec_chunks(p, c)) =~= p);
    } else {
        let m = n - 1;
        assert(m * c >= 0) by {
            lemma_mul_inequality(0, m, c);
            vstd::arithmetic::mul::lemma_mul_basics(c);
        }
        assert((m + 1) * c == m * c + c) by {
            lemma_mul_is_distributive_add_other_way(c, m, 1);
        }
        let p2 = p.subrange(0, m * c);
        lemma_chunks_reconstruct(p2, c);
        if m > 0 {
            assert((m - 1) * c == m * c - c) by {
                lemma_mul_is_distributive_add_other_way(c, m, -1);
            }
            lemma_batch_count_unique(m * c, c, m);
        } else {
            lemma_batch_count_unique(0, c, 0);
        }
        assert forall|k: int| 0 <= k < m implies spec_chunk_at(p2, c, k) == spec_chunk_at(
            p,
            c,
            k,
        ) by {
            assert(k * c >= 0) by {
                lemma_mul_inequality(0, k, c);
                vstd::arithmetic::mul::lemma_mul_basics(c);
            }
            assert((k + 1) * c <= m * c) by {
                lemma_mul_inequality(k + 1, m, c);
            }
            assert(k * c <= (k + 1) * c) by {
                lemma_mul_inequality(k, k + 1, c);
            }
            assert(p2.subrange(k * c, (k + 1) * c) =~= p.subrange(k * c, (k + 1) * c));
            assert(spec_chunk_at(p2, c, k).bytes =~= spec_chunk_at(p, c, k).bytes);
        }
        assert(spec_chunks(p2, c) =~= spec_chunks(p, c).drop_last());
        assert(spec_chunks(p, c).last() == spec_chunk_at(p, c, m));
        assert(spec_chunk_at(p, c, m).bytes =~= p.subrange(m * c, len));
        assert(p2 + p.subrange(m * c, len) =~= p);
    }
}

/// Chunk offsets identify chunks: two chunk indices that place their chunk at
/// the same offset are the same index.
pub proof fn lemma_offset_identifies(c: int, k1: int, k2: int)
    requires
        c > 0,
        k1 * c == k2 * c,
    ensures
        k1 == k2,
{
    assert(k1 == k2) by (nonlinear_arith)
        requires
            c > 0,
            k1 * c == k2 * c,
    ;
}

/// Any `n` with `n * b >= len`, `(n - 1) * b < len` where positive, and
/// `n == 0` exactly on the empty input, is the batch count.
pub proof fn lemma_batch_count_unique(len: int, b: int, n: int)
    requires
        b > 0,
        len >= 0,
        n >= 0,
        n * b >= len,
        n == 0 ==> len == 0,
        n > 0 ==> (n - 1) * b < len,
    ensures
        n == spec_batch_count(len, b),
{
    if n == 0 {
        lemma_batch_count_unique_helper(len, b);
    } else {
        // len + b - 1 == n * b + (b - 1 - (n * b - len)), a remainder in [0, b).
        let s = n * b - len;
        assert((n - 1) * b == n * b - b) by {
            lemma_mul_is_distributive_add_other_way(b, n, -1);
        }
        assert(0 <= s < b);
        let r = b - 1 - s;
        assert(len + b - 1 == n * b + r);
        lemma_fundamental_div_mod_converse(len + b - 1, b, n, r);
    }
}

} // verus!
