//! The copy engine: streams an entry's content to its output artifact in
//! fixed-size chunks until the declared size is reached, and aborts on a
//! read that yields no bytes before that point.

use vstd::prelude::*;
use vstd::arithmetic::div_mod::lemma_fundamental_div_mod;
use vstd::arithmetic::div_mod::lemma_fundamental_div_mod_converse;
use vstd::arithmetic::div_mod::lemma_mod_bound;

verus! {

/// Size in bytes of one copy chunk.
pub const CHUNK_SIZE: usize = 1024;

/// A copy that cannot complete: the content stream was exhausted before
/// the declared size was reached. This aborts the whole run.
#[derive(Clone, Copy, Debug, PartialEq, Eq, Structural)]
pub enum CopyFailure {
    /// A read returned zero bytes at this offset, short of the declared
    /// size: the content is treated as unrecoverably corrupt.
    ShortRead { offset: u64 },
}

/// How many chunk reads a copy of `declared` bytes takes: the declared
/// size divided by the chunk size, rounded up.
pub open spec fn chunks_needed(declared: int) -> int {
    (declared + 1023) / 1024
}

/// How many bytes the copy loop writes when `avail` bytes can be read
/// and `declared` bytes were announced, with `declared <= avail`: the
/// loop stops at the first chunk boundary at or past the declared size,
/// or at the end of the stream, whichever comes first.
pub open spec fn written_len(avail: int, declared: int) -> int {
    if avail <= 1024 * chunks_needed(declared) {
        avail
    } else {
        1024 * chunks_needed(declared)
    }
}

/// The rounded-up chunk count is the least multiple of the chunk size
/// at or above the declared size.
pub(crate) proof fn lemma_chunk_bounds(d: int, c: int)
    requires
        0 <= d,
        0 <= c,
    ensures
        0 <= chunks_needed(d),
        1024 * chunks_needed(d) >= d,
        1024 * c >= d ==> c >= chunks_needed(d),
        1024 * c < d ==> c < chunks_needed(d),
{
    lemma_fundamental_div_mod(d + 1023, 1024);
    lemma_mod_bound(d + 1023, 1024);
}

/// Streams content: reads chunks of up to `CHUNK_SIZE` bytes from `data`
/// in order, starting at offset 0, until the offset reaches `declared`,
/// and returns the bytes written together with the number of chunk reads.
/// The copy succeeds exactly when the stream holds at least the declared
/// number of bytes; a read that yields nothing earlier is a short read,
/// reported with the offset at which it happened.
pub fn copy_content(data: &Vec<u8>, declared: u64) -> (r: Result<(Vec<u8>, u64), CopyFailure>)
    ensures
        r is Ok <==> declared <= data@.len(),
        r is Ok ==> r->Ok_0.0@ == data@.subrange(
            0,
            written_len(data@.len() as int, declared as int),
        ),
        r is Ok ==> r->Ok_0.1 == chunks_needed(declared as int),
        r is Ok && data@.len() == declared ==> r->Ok_0.0@ == data@,
        r is Err ==> r->Err_0 == (CopyFailure::ShortRead { offset: data@.len() as u64 }),
{
    let avail = data.len();
    let mut out: Vec<u8> = Vec::new();
    let mut pos: usize = 0;
    let mut chunks: u64 = 0;
    while (pos as u64) < declared
        invariant
            avail == data@.len(),
            pos <= avail,
            out@ == data@.subrange(0, pos as int),
            pos as int == if avail as int <= 1024 * (chunks as int) {
                avail as int
            } else {
                1024 * (chunks as int)
            },
            chunks as int <= chunks_needed(declared as int),
        decreases avail - pos,
    {
        proof {
            lemma_chunk_bounds(declared as int, chunks as int);
        }
        let remaining = avail - pos;
        let take = if remaining < CHUNK_SIZE {
            remaining
        } else {
            CHUNK_SIZE
        };
        if take == 0 {
            return Err(CopyFailure::ShortRead { offset: pos as u64 });
        }
        let mut t: usize = 0;
        while t < take
            invariant
                avail == data@.len(),
                pos + take <= avail,
                t <= take,
                out@ == data@.subrange(0, (pos + t) as int),
            decreases take - t,
        {
            out.push(data[pos + t]);
            proof {
                assert(out@ =~= data@.subrange(0, (pos + t + 1) as int));
            }
            t = t + 1;
        }
        pos = pos + take;
        chunks = chunks + 1;
    }
    proof {
        lemma_chunk_bounds(declared as int, chunks as int);
        assert(out@ == data@.subrange(0, written_len(avail as int, declared as int)));
    }
    Ok((out, chunks))
}

} // verus!
