//! The byte-order transform and the chunking step of the wire format.
//!
//! The wire format carries each coordinate as one 32-byte block. The
//! arithmetic backend reads the opposite byte order, so the transform reverses
//! every 32-byte block in place; applying it twice restores the input.

use vstd::prelude::*;

verus! {

/// Each 32-byte block of `s` reversed; a shorter trailing block is reversed
/// as a whole too, mirroring the executable transform.
pub open spec fn rev_chunks(s: Seq<u8>) -> Seq<u8>
    decreases s.len(),
{
    if s.len() == 0 {
        Seq::empty()
    } else if s.len() <= 32 {
        s.reverse()
    } else {
        s.take(32).reverse() + rev_chunks(s.skip(32))
    }
}

pub proof fn lemma_rev_chunks_len(s: Seq<u8>)
    ensures
        rev_chunks(s).len() == s.len(),
    decreases s.len(),
{
    if s.len() > 32 {
        lemma_rev_chunks_len(s.skip(32));
    }
}

/// Reversing blockwise distributes over appending one (possibly short) block
/// to a block-aligned prefix.
proof fn lemma_rev_chunks_append_block(s: Seq<u8>, t: Seq<u8>)
    requires
        s.len() % 32 == 0,
        t.len() <= 32,
    ensures
        rev_chunks(s + t) == rev_chunks(s) + t.reverse(),
    decreases s.len(),
{
    if s.len() == 0 {
        assert(s + t =~= t);
        if t.len() == 0 {
            assert(rev_chunks(s + t) =~= rev_chunks(s) + t.reverse());
        } else {
            assert(rev_chunks(s) + t.reverse() =~= t.reverse());
        }
    } else if (s + t).len() <= 32 {
        // s.len() is a positive multiple of 32, so s.len() == 32 and t is empty.
        assert(s + t =~= s);
        assert(rev_chunks(s) + t.reverse() =~= rev_chunks(s));
    } else {
        assert((s + t).take(32) =~= s.take(32));
        assert((s + t).skip(32) =~= s.skip(32) + t);
        lemma_rev_chunks_append_block(s.skip(32), t);
        if s.len() == 32 {
            assert(s.take(32) =~= s);
            assert(s.skip(32) =~= Seq::<u8>::empty());
            assert(rev_chunks(s.skip(32)) =~= Seq::<u8>::empty());
            assert(rev_chunks(s + t) =~= rev_chunks(s) + t.reverse());
        } else {
            assert(rev_chunks(s + t) =~= rev_chunks(s) + t.reverse());
        }
    }
}

/// The transform undoes itself: on block-aligned input, reversing every
/// 32-byte block twice is the identity.
pub proof fn lemma_rev_chunks_involution(s: Seq<u8>)
    requires
        s.len() % 32 == 0,
    ensures
        rev_chunks(rev_chunks(s)) == s,
    decreases s.len(),
{
    if s.len() == 0 {
        assert(rev_chunks(rev_chunks(s)) =~= s);
    } else if s.len() == 32 {
        assert(s.reverse().reverse() =~= s);
    } else {
        let h = s.take(32).reverse();
        let rest = rev_chunks(s.skip(32));
        lemma_rev_chunks_len(s.skip(32));
        assert(rev_chunks(s) == h + rest);
        assert((h + rest).take(32) =~= h);
        assert((h + rest).skip(32) =~= rest);
        lemma_rev_chunks_involution(s.skip(32));
        assert(h.reverse() =~= s.take(32));
        assert(rev_chunks(rev_chunks(s)) == h.reverse() + s.skip(32));
        assert(h.reverse() + s.skip(32) =~= s);
    }
}

/// Reverses the byte order within each 32-byte block of `bytes`.
pub fn change_endianness(bytes: &[u8]) -> (r: Vec<u8>)
    ensures
        r@ == rev_chunks(bytes@),
{
    let mut out: Vec<u8> = Vec::new();
    let mut start: usize = 0;
    while start < bytes.len()
        invariant
            start <= bytes@.len(),
            start % 32 == 0,
            out@ == rev_chunks(bytes@.take(start as int)),
        decreases bytes@.len() - start,
    {
        let blk: usize = if bytes.len() - start < 32 {
            bytes.len() - start
        } else {
            32
        };
        let ghost block = bytes@.subrange(start as int, start as int + blk as int);
        let mut j: usize = 0;
        while j < blk
            invariant
                j <= blk,
                start + blk <= bytes@.len(),
                start + blk <= usize::MAX,
                block == bytes@.subrange(start as int, start as int + blk as int),
                out@ == rev_chunks(bytes@.take(start as int)) + block.reverse().take(j as int),
            decreases blk - j,
        {
            out.push(bytes[start + (blk - 1 - j)]);
            assert(block.reverse().take(j + 1) =~= block.reverse().take(j as int).push(
                block[blk - 1 - j],
            ));
            j = j + 1;
        }
        proof {
            assert(block.reverse().take(blk as int) =~= block.reverse());
            lemma_rev_chunks_append_block(bytes@.take(start as int), block);
            assert(bytes@.take(start as int) + block =~= bytes@.take(start as int + blk as int));
        }
        if blk < 32 {
            // A short trailing block ends the input.
            assert(start + blk == bytes@.len());
            assert(bytes@.take(start as int + blk as int) =~= bytes@);
            return out;
        }
        start = start + blk;
    }
    proof {
        assert(bytes@.take(start as int) =~= bytes@);
    }
    out
}

/// The `i`-th 32-byte chunk of `s`, zero-padded on the right when `s` ends
/// before the chunk does.
pub open spec fn padded_chunk(s: Seq<u8>, i: int) -> Seq<u8> {
    let lo = 32 * i;
    let hi = if 32 * i + 32 <= s.len() {
        32 * i + 32
    } else {
        s.len() as int
    };
    let body = s.subrange(lo, hi);
    body + Seq::new((32 - body.len()) as nat, |j: int| 0u8)
}

/// How many chunks `chunk_instruction_data` cuts `s` into.
pub open spec fn chunk_count(s: Seq<u8>) -> nat {
    if s.len() % 32 == 0 {
        s.len() / 32
    } else {
        s.len() / 32 + 1
    }
}

/// Copies a 32-byte slice into an owned 32-byte block.
///
/// Relies on `<&[u8] as TryInto<[u8; 32]>>::try_into`, which succeeds exactly
/// when the slice holds 32 bytes and copies them in order.
#[verifier::external_body]
fn to_array_32(v: &[u8]) -> (r: [u8; 32])
    requires
        v@.len() == 32,
    ensures
        r@ == v@,
{
    v.try_into().unwrap()
}

/// Splits `data` into 32-byte chunks, zero-padding a short trailing chunk.
pub fn chunk_instruction_data(data: &[u8]) -> (r: Vec<[u8; 32]>)
    ensures
        r@.len() == chunk_count(data@),
        forall|i: int| 0 <= i < r@.len() ==> r@[i]@ == padded_chunk(data@, i),
{
    let mut out: Vec<[u8; 32]> = Vec::new();
    let mut start: usize = 0;
    while start < data.len()
        invariant
            start <= data@.len(),
            start % 32 == 0,
            start == 32 * out@.len(),
            start < data@.len() ==> out@.len() == start / 32,
            start >= data@.len() ==> out@.len() == chunk_count(data@),
            forall|i: int| 0 <= i < out@.len() ==> out@[i]@ == padded_chunk(data@, i),
        decreases data@.len() - start,
    {
        let blk: usize = if data.len() - start < 32 {
            data.len() - start
        } else {
            32
        };
        let mut piece: Vec<u8> = Vec::new();
        let mut j: usize = 0;
        while j < blk
            invariant
                j <= blk,
                start + blk <= data@.len(),
                start + blk <= usize::MAX,
                piece@ == data@.subrange(start as int, start as int + j as int),
            decreases blk - j,
        {
            piece.push(data[start + j]);
            assert(data@.subrange(start as int, start as int + j + 1) =~= data@.subrange(
                start as int,
                start as int + j as int,
            ).push(data@[start + j]));
            j = j + 1;
        }
        while j < 32
            invariant
                blk <= j <= 32,
                start + blk <= data@.len(),
                piece@ == data@.subrange(start as int, start as int + blk as int) + Seq::new(
                    (j - blk) as nat,
                    |k: int| 0u8,
                ),
            decreases 32 - j,
        {
            piece.push(0u8);
            assert(piece@ =~= data@.subrange(start as int, start as int + blk as int) + Seq::new(
                (j + 1 - blk) as nat,
                |k: int| 0u8,
            ));
            j = j + 1;
        }
        let arr = to_array_32(piece.as_slice());
        proof {
            let gi = out@.len() as int;
            assert(arr@ =~= padded_chunk(data@, gi));
        }
        out.push(arr);
        if blk < 32 {
            assert(start + blk == data@.len());
            return out;
        }
        start = start + blk;
    }
    out
}

} // verus!
