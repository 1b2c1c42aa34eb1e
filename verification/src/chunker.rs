//! Splitting a byte buffer into an ordered sequence of contiguous,
//! fixed-size chunks, each small enough to fit one datagram's payload budget.

use vstd::prelude::*;

verus! {

/// Default maximum transmission unit assumed for the network path.
pub const DEFAULT_MTU: usize = 1500;

/// Bytes subtracted from the MTU for the datagram header and the reserved
/// framing budget.
pub const FIXED_OVERHEAD: usize = 8 + 176;

/// The payload budget of one datagram for a path MTU of `mtu` bytes: the
/// MTU less the fixed overhead.
pub fn header_len_for_mtu(mtu: usize) -> (h: usize)
    requires
        mtu > FIXED_OVERHEAD,
    ensures
        h == mtu - FIXED_OVERHEAD,
        h > 0,
{
    mtu - FIXED_OVERHEAD
}

/// Number of chunks that a buffer of `len` bytes splits into when every
/// chunk holds at most `h` bytes: the ceiling of `len / h`, and `0` for an
/// empty buffer.
pub open spec fn chunk_count(len: int, h: int) -> int
    recommends
        h > 0,
        len >= 0,
{
    if len == 0 {
        0
    } else {
        (len - 1) / h + 1
    }
}

/// The bytes of chunk `j`: the contiguous slice of `buf` starting at
/// `j * h`, ending after `h` bytes or at the end of the buffer, whichever
/// comes first.
pub open spec fn chunk_at(buf: Seq<u8>, h: int, j: int) -> Seq<u8>
    recommends
        h > 0,
        0 <= j < chunk_count(buf.len() as int, h),
{
    buf.subrange(
        j * h,
        if j * h + h <= buf.len() as int {
            j * h + h
        } else {
            buf.len() as int
        },
    )
}

/// The whole chunk sequence of `buf` for chunk size `h`, in index order.
pub open spec fn chunks_of(buf: Seq<u8>, h: int) -> Seq<Seq<u8>>
    recommends
        h > 0,
{
    Seq::new(chunk_count(buf.len() as int, h) as nat, |j: int| chunk_at(buf, h, j))
}

/// The chunk count is the least `k` with `k * h >= len`: one chunk per
/// started block of `h` bytes.
pub proof fn lemma_chunk_count_bounds(len: int, h: int)
    requires
        h > 0,
        len >= 0,
    ensures
        chunk_count(len, h) >= 0,
        chunk_count(len, h) * h >= len,
        len > 0 ==> (chunk_count(len, h) - 1) * h < len,
        len == 0 ==> chunk_count(len, h) == 0,
{
    if len > 0 {
        let q = (len - 1) / h;
        vstd::arithmetic::div_mod::lemma_fundamental_div_mod(len - 1, h);
        vstd::arithmetic::div_mod::lemma_mod_bound(len - 1, h);
        assert(q * h == (len - 1) - (len - 1) % h);
        assert((q + 1) * h == q * h + h) by (nonlinear_arith);
    }
}

/// A chunk index below the count starts strictly inside the buffer.
proof fn lemma_chunk_start_in_range(len: int, h: int, j: int)
    requires
        h > 0,
        0 <= j < chunk_count(len, h),
        len >= 0,
    ensures
        j * h < len,
        j * h >= 0,
{
    lemma_chunk_count_bounds(len, h);
    let c = chunk_count(len, h);
    vstd::arithmetic::mul::lemma_mul_inequality(j, c - 1, h);
    vstd::arithmetic::mul::lemma_mul_nonnegative(j, h);
}

/// Split `buffer` into contiguous chunks of at most `header_len` bytes:
/// chunk `j` holds exactly the bytes
/// `buffer[j * header_len .. min((j + 1) * header_len, buffer.len())]`,
/// and the number of chunks is the ceiling of
/// `buffer.len() / header_len` (zero for an empty buffer).
pub fn chunk(buffer: &Vec<u8>, header_len: usize) -> (chunks: Vec<Vec<u8>>)
    requires
        header_len > 0,
    ensures
        chunks@.len() == chunk_count(buffer@.len() as int, header_len as int),
        forall|j: int|
            0 <= j < chunks@.len() ==> (#[trigger] chunks@[j])@ == chunk_at(
                buffer@,
                header_len as int,
                j,
            ),
{
    let len = buffer.len();
    let ghost l = len as int;
    let ghost h = header_len as int;
    proof {
        lemma_chunk_count_bounds(l, h);
    }
    let mut chunks: Vec<Vec<u8>> = Vec::new();
    let mut pos: usize = 0;
    while pos < len
        invariant
            header_len > 0,
            l == buffer@.len(),
            h == header_len as int,
            len == buffer.len(),
            chunks@.len() <= chunk_count(l, h),
            pos as int == if chunks@.len() * h <= l {
                chunks@.len() * h
            } else {
                l
            },
            forall|j: int|
                0 <= j < chunks@.len() ==> (#[trigger] chunks@[j])@ == chunk_at(buffer@, h, j),
        decreases l - pos,
    {
        let ghost k = chunks@.len() as int;
        proof {
            // pos < len, so pos == k * h and chunk k starts inside the buffer.
            lemma_chunk_count_bounds(l, h);
            if k >= chunk_count(l, h) {
                vstd::arithmetic::mul::lemma_mul_inequality(chunk_count(l, h), k, h);
                assert(false);
            }
            lemma_chunk_start_in_range(l, h, k);
        }
        let end = if len - pos < header_len {
            len
        } else {
            pos + header_len
        };
        let mut c: Vec<u8> = Vec::new();
        let mut i = pos;
        while i < end
            invariant
                pos <= i <= end <= buffer.len(),
                c@ == buffer@.subrange(pos as int, i as int),
            decreases end - i,
        {
            c.push(buffer[i]);
            assert(c@ =~= buffer@.subrange(pos as int, i as int + 1));
            i = i + 1;
        }
        proof {
            assert((k + 1) * h == k * h + h) by (nonlinear_arith);
            assert(c@ == chunk_at(buffer@, h, k));
        }
        chunks.push(c);
        pos = end;
    }
    proof {
        // The loop ends with pos == len; the chunk count is exact.
        let k = chunks@.len() as int;
        lemma_chunk_count_bounds(l, h);
        if l > 0 && k < chunk_count(l, h) {
            lemma_chunk_start_in_range(l, h, k);
            assert(false);
        }
    }
    chunks
}

/// Partition law: concatenating all chunks in index order reconstructs the
/// original buffer exactly, for every buffer length.
pub proof fn lemma_chunks_partition(buf: Seq<u8>, h: int)
    requires
        h > 0,
    ensures
        chunks_of(buf, h).flatten() == buf,
{
    let c = chunk_count(buf.len() as int, h);
    lemma_chunk_count_bounds(buf.len() as int, h);
    lemma_chunks_prefix(buf, h, c);
    assert(chunks_of(buf, h).take(c) =~= chunks_of(buf, h));
    assert(buf.take(buf.len() as int) =~= buf);
}

/// Concatenating the first `k` chunks yields the first `min(k * h, len)`
/// bytes of the buffer.
proof fn lemma_chunks_prefix(buf: Seq<u8>, h: int, k: int)
    requires
        h > 0,
        0 <= k <= chunk_count(buf.len() as int, h),
    ensures
        chunks_of(buf, h).take(k).flatten() == buf.take(
            if k * h <= buf.len() as int {
                k * h
            } else {
                buf.len() as int
            },
        ),
    decreases k,
{
    let l = buf.len() as int;
    if k == 0 {
        assert(chunks_of(buf, h).take(0) =~= Seq::<Seq<u8>>::empty());
        assert(buf.take(0) =~= Seq::<u8>::empty());
    } else {
        lemma_chunks_prefix(buf, h, k - 1);
        lemma_chunk_start_in_range(l, h, k - 1);
        assert((k - 1) * h == k * h - h) by (nonlinear_arith);
        let prev = chunks_of(buf, h).take(k - 1);
        let piece = chunk_at(buf, h, k - 1);
        assert(chunks_of(buf, h).take(k) =~= prev.push(piece));
        prev.lemma_flatten_push(piece);
        let m = if k * h <= l {
            k * h
        } else {
            l
        };
        assert(buf.take((k - 1) * h) + buf.subrange((k - 1) * h, m) =~= buf.take(m));
    }
}

/// Boundary law: every chunk but the last has exactly `h` bytes; when the
/// buffer length is a multiple of `h` the last chunk (if any) has `h` bytes
/// too, and otherwise it has `len % h` bytes.
pub proof fn lemma_chunk_sizes(buf: Seq<u8>, h: int)
    requires
        h > 0,
    ensures
        forall|j: int|
            0 <= j < chunk_count(buf.len() as int, h) - 1 ==> (#[trigger] chunks_of(buf, h)[j]).len()
                == h,
        buf.len() as int % h == 0 ==> forall|j: int|
            0 <= j < chunk_count(buf.len() as int, h) ==> (#[trigger] chunks_of(buf, h)[j]).len()
                == h,
        buf.len() as int % h != 0 ==> chunks_of(buf, h).last().len() == buf.len() as int % h,
{
    let l = buf.len() as int;
    let c = chunk_count(l, h);
    lemma_chunk_count_bounds(l, h);
    assert forall|j: int| 0 <= j < c - 1 implies (#[trigger] chunks_of(buf, h)[j]).len() == h by {
        lemma_chunk_start_in_range(l, h, j);
        vstd::arithmetic::mul::lemma_mul_inequality(j + 1, c - 1, h);
        assert((j + 1) * h == j * h + h) by (nonlinear_arith);
    }
    if c > 0 {
        // The last chunk runs from (c - 1) * h to the end of the buffer.
        lemma_chunk_start_in_range(l, h, c - 1);
        assert((c - 1) * h == c * h - h) by (nonlinear_arith);
        vstd::arithmetic::div_mod::lemma_fundamental_div_mod(l - 1, h);
        vstd::arithmetic::div_mod::lemma_mod_bound(l - 1, h);
        vstd::arithmetic::div_mod::lemma_fundamental_div_mod(l, h);
        vstd::arithmetic::div_mod::lemma_mod_bound(l, h);
        if l % h == 0 {
            assert(l == (l / h) * h);
            assert(chunks_of(buf, h).last().len() == l - (c - 1) * h);
            assert((l / h) * h == ((l - 1) / h + 1) * h) by {
                vstd::arithmetic::div_mod::lemma_div_is_ordered(l - 1, l, h);
                if l / h > (l - 1) / h + 1 {
                    vstd::arithmetic::mul::lemma_mul_inequality((l - 1) / h + 2, l / h, h);
                    assert(((l - 1) / h + 2) * h == ((l - 1) / h) * h + 2 * h) by (nonlinear_arith);
                    assert(false);
                }
                if l / h < (l - 1) / h + 1 {
                    vstd::arithmetic::mul::lemma_mul_inequality(l / h, (l - 1) / h, h);
                    assert(false);
                }
            }
        } else {
            assert(chunks_of(buf, h).last().len() == l - (c - 1) * h);
            assert((l - 1) / h == l / h) by {
                vstd::arithmetic::div_mod::lemma_div_is_ordered(l - 1, l, h);
                if (l - 1) / h < l / h {
                    vstd::arithmetic::mul::lemma_mul_inequality((l - 1) / h + 1, l / h, h);
                    assert(((l - 1) / h + 1) * h == ((l - 1) / h) * h + h) by (nonlinear_arith);
                    assert(false);
                }
            }
            assert(l - ((l / h) * h) == l % h);
        }
    }
}

} // verus!
