//! The compute side of the one-shot body fetch: status-class
//! validation and reassembly of the chunked body into text.  The
//! transport hands over the status code and the raw chunks it read.

use crate::reader::ChunkedUtf8Reader;
use crate::utf8_stream::lemma_unacceptable_never_valid;
use crate::utf8_stream::lemma_valid_prefix_remainder;
use vstd::prelude::*;
use vstd::utf8::decode_utf8;
use vstd::utf8::encode_utf8;
use vstd::utf8::encode_utf8_decode_utf8;
use vstd::utf8::encode_utf8_valid_utf8;
use vstd::utf8::valid_utf8;

verus! {

/// Why the fetch yielded no usable body.
#[derive(PartialEq, Eq, Structural, Clone, Copy, Debug)]
pub enum FetchError {
    /// The response status was outside the success class.
    UnexpectedStatus(u16),
    /// The body's bytes are not UTF-8, or the stream ended inside a
    /// multi-byte character.
    MalformedStream,
}

/// The body's bytes: the chunks laid end to end, in order.
pub open spec fn chunks_bytes(chunks: Seq<Vec<u8>>) -> Seq<u8>
    decreases chunks.len(),
{
    if chunks.len() == 0 {
        Seq::empty()
    } else {
        chunks_bytes(chunks.drop_last()) + chunks.last()@
    }
}

/// A response status in the success class.
pub open spec fn success_status(status: u16) -> bool {
    200 <= status <= 299
}

/// The body's bytes split at any chunk boundary.
proof fn lemma_chunks_bytes_split(chunks: Seq<Vec<u8>>, i: int)
    requires
        0 <= i <= chunks.len(),
    ensures
        chunks_bytes(chunks) == chunks_bytes(chunks.subrange(0, i)) + chunks_bytes(
            chunks.subrange(i, chunks.len() as int),
        ),
    decreases chunks.len(),
{
    if i == chunks.len() {
        assert(chunks.subrange(0, i) =~= chunks);
        assert(chunks_bytes(chunks.subrange(i, chunks.len() as int)) =~= Seq::<u8>::empty());
        assert(chunks_bytes(chunks) + Seq::<u8>::empty() =~= chunks_bytes(chunks));
    } else {
        lemma_chunks_bytes_split(chunks.drop_last(), i);
        assert(chunks.drop_last().subrange(0, i) =~= chunks.subrange(0, i));
        assert(chunks.drop_last().subrange(i, chunks.len() - 1) =~= chunks.subrange(
            i,
            chunks.len() as int,
        ).drop_last());
        assert(chunks.subrange(i, chunks.len() as int).last() == chunks.last());
        assert(chunks.subrange(i, chunks.len() as int).len() != 0);
        assert((chunks_bytes(chunks.subrange(0, i)) + chunks_bytes(
            chunks.subrange(i, chunks.len() as int).drop_last(),
        )) + chunks.last()@ =~= chunks_bytes(chunks.subrange(0, i)) + (chunks_bytes(
            chunks.subrange(i, chunks.len() as int).drop_last(),
        ) + chunks.last()@));
    }
}

/// The body's bytes grow by one chunk at a time.
proof fn lemma_chunks_bytes_step(chunks: Seq<Vec<u8>>, i: int)
    requires
        0 <= i < chunks.len(),
    ensures
        chunks_bytes(chunks.subrange(0, i + 1)) == chunks_bytes(chunks.subrange(0, i))
            + chunks[i]@,
{
    assert(chunks.subrange(0, i + 1).drop_last() =~= chunks.subrange(0, i));
    assert(chunks.subrange(0, i + 1).last() == chunks[i]);
}

/// Validates the status class and reassembles the body chunks into
/// text.  Outside the success class the body is not consumed; inside
/// it, the body is accepted exactly when its bytes are valid UTF-8,
/// however the chunk boundaries fall, and the text is their decoding.
pub fn load(status: u16, chunks: &Vec<Vec<u8>>) -> (r: Result<String, FetchError>)
    ensures
        !success_status(status) ==> r == Err::<String, FetchError>(
            FetchError::UnexpectedStatus(status),
        ),
        r is Ok <==> success_status(status) && valid_utf8(chunks_bytes(chunks@)),
        r matches Ok(s) ==> s@ == decode_utf8(chunks_bytes(chunks@)),
        success_status(status) && !valid_utf8(chunks_bytes(chunks@)) ==> r == Err::<
            String,
            FetchError,
        >(FetchError::MalformedStream),
{
    if !(200 <= status && status <= 299) {
        return Err(FetchError::UnexpectedStatus(status));
    }
    let mut reader = ChunkedUtf8Reader::new();
    let n = chunks.len();
    let mut i: usize = 0;
    proof {
        assert(chunks_bytes(chunks@.subrange(0, 0)) =~= Seq::<u8>::empty());
    }
    while i < n
        invariant
            0 <= i <= n,
            n == chunks@.len(),
            success_status(status),
            reader.wf(),
            reader.consumed() == chunks_bytes(chunks@.subrange(0, i as int)),
        decreases n - i,
    {
        let ghost pre = reader;
        match reader.push_chunk(&chunks[i]) {
            Ok(()) => {
                proof {
                    lemma_chunks_bytes_step(chunks@, i as int);
                }
            },
            Err(_) => {
                proof {
                    let tail_and_on = pre.pending_tail() + chunks@[i as int]@;
                    let ext = chunks_bytes(chunks@.subrange(i + 1, n as int));
                    lemma_unacceptable_never_valid(tail_and_on, ext);
                    lemma_chunks_bytes_split(chunks@, i + 1);
                    lemma_chunks_bytes_step(chunks@, i as int);
                    assert(chunks_bytes(chunks@) =~= pre.text_bytes() + (tail_and_on + ext));
                    if valid_utf8(chunks_bytes(chunks@)) {
                        lemma_valid_prefix_remainder(pre.text_bytes(), tail_and_on + ext);
                    }
                }
                return Err(FetchError::MalformedStream);
            },
        }
        i = i + 1;
    }
    proof {
        assert(chunks@.subrange(0, n as int) =~= chunks@);
    }
    match reader.finish() {
        Ok(s) => Ok(s),
        Err(_) => Err(FetchError::MalformedStream),
    }
}

/// UTF-8 boundary law: however a character sequence's UTF-8 encoding
/// is cut into chunks, the reassembled body is valid UTF-8 and decodes
/// to exactly that sequence — so `load`, fed those chunks with a
/// success status, returns exactly the original string.
pub proof fn lemma_chunked_roundtrip(chars: Seq<char>, chunks: Seq<Vec<u8>>)
    requires
        chunks_bytes(chunks) == encode_utf8(chars),
    ensures
        valid_utf8(chunks_bytes(chunks)),
        decode_utf8(chunks_bytes(chunks)) == chars,
{
    encode_utf8_valid_utf8(chars);
    encode_utf8_decode_utf8(chars);
}

} // verus!
