//! Reassembles the response body from fixed-size byte chunks into a
//! string, carrying an unfinished multi-byte character from one chunk
//! to the next so that only whole characters ever reach the text.

use crate::utf8_stream::ScanOutcome;
use crate::utf8_stream::acceptable_stream_prefix;
use crate::utf8_stream::is_incomplete_scalar_prefix;
use crate::utf8_stream::lemma_acceptable_compose;
use crate::utf8_stream::lemma_incomplete_tail_not_valid;
use crate::utf8_stream::scan_stream_bytes;
use vstd::prelude::*;
use vstd::utf8::decode_utf8;
use vstd::utf8::valid_utf8;
use vstd::utf8::valid_utf8_concat;

verus! {

/// Why consuming the body stream failed.
#[derive(PartialEq, Eq, Structural, Clone, Copy, Debug)]
pub enum ReadError {
    /// The stream's bytes are not UTF-8, or it ended inside a
    /// multi-byte character.
    MalformedStream,
}

/// Relies on String::from_utf8: it succeeds exactly on UTF-8-valid
/// input and returns the string whose characters those bytes encode.
#[verifier::external_body]
fn string_from_utf8(bytes: Vec<u8>) -> (r: Option<String>)
    ensures
        r is Some <==> valid_utf8(bytes@),
        r matches Some(s) ==> s@ == decode_utf8(bytes@),
{
    match String::from_utf8(bytes) {
        Ok(s) => Some(s),
        Err(_) => None,
    }
}

/// Appends `src[from..to]` to `dst`.
fn append_range(dst: &mut Vec<u8>, src: &Vec<u8>, from: usize, to: usize)
    requires
        from <= to <= src@.len(),
    ensures
        final(dst)@ == old(dst)@ + src@.subrange(from as int, to as int),
{
    let ghost base = dst@;
    let mut k: usize = from;
    proof {
        assert(base + src@.subrange(from as int, from as int) =~= base);
    }
    while k < to
        invariant
            from <= k <= to <= src@.len(),
            dst@ == base + src@.subrange(from as int, k as int),
        decreases to - k,
    {
        let byte = src[k];
        dst.push(byte);
        proof {
            assert(base + src@.subrange(from as int, k + 1) =~= (base + src@.subrange(
                from as int,
                k as int,
            )).push(byte));
        }
        k = k + 1;
    }
}

/// Assembles a stream of byte chunks into text.  The decoded text only
/// ever holds whole characters; up to three bytes of one unfinished
/// multi-byte character wait in the pending tail for the next chunk.
pub struct ChunkedUtf8Reader {
    text: Vec<u8>,
    tail: Vec<u8>,
}

impl ChunkedUtf8Reader {
    /// The bytes already decoded into whole characters.
    pub closed spec fn text_bytes(self) -> Seq<u8> {
        self.text@
    }

    /// The carried-over start of an unfinished multi-byte character.
    pub closed spec fn pending_tail(self) -> Seq<u8> {
        self.tail@
    }

    /// Every byte accepted from the stream so far, in order.
    pub open spec fn consumed(self) -> Seq<u8> {
        self.text_bytes() + self.pending_tail()
    }

    /// The decoded part is valid UTF-8 and the pending tail is nothing
    /// or the beginning of one multi-byte character.
    pub open spec fn wf(self) -> bool {
        &&& valid_utf8(self.text_bytes())
        &&& (self.pending_tail().len() == 0 || is_incomplete_scalar_prefix(self.pending_tail()))
    }

    /// A fresh reader that has consumed nothing.
    pub fn new() -> (r: ChunkedUtf8Reader)
        ensures
            r.wf(),
            r.consumed() == Seq::<u8>::empty(),
    {
        let r = ChunkedUtf8Reader { text: Vec::new(), tail: Vec::new() };
        proof {
            assert(r.consumed() =~= Seq::<u8>::empty());
        }
        r
    }

    /// Consumes one chunk: the pending tail followed by the chunk is
    /// split into whole characters, appended to the text, and a new
    /// pending tail.  Bytes that no continuation of the stream can
    /// complete are a malformed stream.
    pub fn push_chunk(&mut self, chunk: &Vec<u8>) -> (r: Result<(), ReadError>)
        requires
            old(self).wf(),
        ensures
            final(self).wf(),
            r is Ok <==> acceptable_stream_prefix(old(self).pending_tail() + chunk@),
            r is Ok ==> final(self).consumed() == old(self).consumed() + chunk@,
            r is Err ==> *final(self) == *old(self) && r == Err::<(), ReadError>(
                ReadError::MalformedStream,
            ),
    {
        let ghost old_text = self.text@;
        let ghost old_tail = self.tail@;
        let mut combined: Vec<u8> = Vec::new();
        append_range(&mut combined, &self.tail, 0, self.tail.len());
        append_range(&mut combined, chunk, 0, chunk.len());
        proof {
            assert(combined@ =~= old_tail + chunk@);
        }
        match scan_stream_bytes(&combined) {
            ScanOutcome::Complete => {
                let clen = combined.len();
                append_range(&mut self.text, &combined, 0, clen);
                self.tail = Vec::new();
                proof {
                    assert(combined@.subrange(0, clen as int) =~= combined@);
                    valid_utf8_concat(old_text, combined@);
                    assert(self.consumed() =~= (old_text + old_tail) + chunk@);
                    lemma_acceptable_compose(combined@, Seq::<u8>::empty());
                    assert(combined@ + Seq::<u8>::empty() =~= combined@);
                }
                Ok(())
            },
            ScanOutcome::Partial(boundary) => {
                let ghost head = combined@.subrange(0, boundary as int);
                let ghost rest = combined@.subrange(boundary as int, combined@.len() as int);
                let mut new_tail: Vec<u8> = Vec::new();
                let clen = combined.len();
                append_range(&mut new_tail, &combined, boundary, clen);
                append_range(&mut self.text, &combined, 0, boundary);
                self.tail = new_tail;
                proof {
                    valid_utf8_concat(old_text, head);
                    assert(new_tail@ =~= rest);
                    assert(head + rest =~= combined@);
                    assert(self.consumed() =~= (old_text + old_tail) + chunk@);
                    lemma_acceptable_compose(head, rest);
                }
                Ok(())
            },
            ScanOutcome::Malformed => Err(ReadError::MalformedStream),
        }
    }

    /// Ends the stream.  A pending tail left over is a truncated
    /// multi-byte character, so the whole stream was malformed; with
    /// nothing pending the text is exactly the decoded stream.
    pub fn finish(self) -> (r: Result<String, ReadError>)
        requires
            self.wf(),
        ensures
            r is Ok <==> valid_utf8(self.consumed()),
            r matches Ok(s) ==> s@ == decode_utf8(self.consumed()),
            r is Err ==> r == Err::<String, ReadError>(ReadError::MalformedStream),
    {
        if self.tail.len() > 0 {
            proof {
                lemma_incomplete_tail_not_valid(self.text_bytes(), self.pending_tail());
            }
            Err(ReadError::MalformedStream)
        } else {
            proof {
                assert(self.consumed() =~= self.text_bytes());
            }
            match string_from_utf8(self.text) {
                Some(s) => Ok(s),
                None => Err(ReadError::MalformedStream),
            }
        }
    }

    /// The text decoded so far, dropping any unfinished character: the
    /// best-effort result handed out when the transport fails before
    /// the stream's end.
    pub fn partial_text(self) -> (r: String)
        requires
            self.wf(),
        ensures
            r@ == decode_utf8(self.text_bytes()),
    {
        match string_from_utf8(self.text) {
            Some(s) => s,
            None => String::new(),
        }
    }
}

} // verus!
