//! UTF-8 boundary tracking for a byte stream that arrives in chunks.
//!
//! A chunk boundary may fall inside the encoding of a multi-byte
//! character.  This module classifies a byte sequence as either valid
//! UTF-8, valid UTF-8 followed by the beginning of one multi-byte
//! encoding (at most three bytes, carried to the next chunk), or
//! malformed (bytes that no continuation of the stream can complete).

use vstd::prelude::*;
use vstd::utf8::*;

verus! {

/// Number of bytes in the scalar encoding introduced by a multi-byte
/// leading byte; zero for a byte that cannot begin any valid scalar
/// encoding of width two to four (continuation bytes, the overlong
/// leads 0xC0 and 0xC1, and leads above 0xF4).
pub open spec fn multibyte_width(lead: u8) -> int {
    if 0xC2 <= lead && lead <= 0xDF {
        2
    } else if 0xE0 <= lead && lead <= 0xEF {
        3
    } else if 0xF0 <= lead && lead <= 0xF4 {
        4
    } else {
        0
    }
}

/// Smallest first continuation byte that keeps the encoding after the
/// given lead non-overlong and within the scalar range.
pub open spec fn first_cont_min(lead: u8) -> u8 {
    if lead == 0xE0 {
        0xA0
    } else if lead == 0xF0 {
        0x90
    } else {
        0x80
    }
}

/// Largest first continuation byte that keeps the encoding after the
/// given lead out of the surrogate range and within the scalar range.
pub open spec fn first_cont_max(lead: u8) -> u8 {
    if lead == 0xED {
        0x9F
    } else if lead == 0xF4 {
        0x8F
    } else {
        0xBF
    }
}

/// The bytes begin a multi-byte scalar encoding but stop before its
/// last byte, and every byte present is one some continuation of the
/// stream can extend into a valid scalar.  Such a sequence is one to
/// three bytes long and is never itself valid UTF-8.
pub open spec fn is_incomplete_scalar_prefix(s: Seq<u8>) -> bool {
    &&& 1 <= s.len()
    &&& s.len() < multibyte_width(s[0])
    &&& (s.len() >= 2 ==> first_cont_min(s[0]) <= s[1] && s[1] <= first_cont_max(s[0]))
    &&& (s.len() >= 3 ==> is_continuation_byte(s[2]))
}

/// The bytes decompose into a valid UTF-8 part followed by either
/// nothing or the beginning of one multi-byte scalar encoding.  A
/// stream whose consumed bytes ever fall outside this predicate can
/// never again become valid UTF-8, however it continues.
pub open spec fn acceptable_stream_prefix(s: Seq<u8>) -> bool
    decreases s.len(),
{
    if s.len() == 0 {
        true
    } else if valid_first_scalar(s) {
        acceptable_stream_prefix(pop_first_scalar(s))
    } else {
        is_incomplete_scalar_prefix(s)
    }
}

/// A valid scalar encoding starts with either an ASCII byte or a
/// multi-byte lead whose width matches the scalar's length.
proof fn lemma_valid_lead_class(s: Seq<u8>)
    requires
        valid_first_scalar(s),
    ensures
        is_leading_byte_width_1(s[0]) ==> length_of_first_scalar(s) == 1,
        !is_leading_byte_width_1(s[0]) ==> multibyte_width(s[0]) == length_of_first_scalar(s),
        1 <= length_of_first_scalar(s) <= s.len(),
{
    let b0 = s[0];
    if is_leading_byte_width_1(b0) {
    } else if is_leading_byte_width_2(b0) {
        let b1 = s[1];
        assert(0xC2 <= b0) by {
            assert((0xC0 <= b0 && b0 <= 0xC1) ==> ((((b0 & 0x1F) as u32) << 6) | ((b1
                & 0x3F) as u32)) < 0x80) by (bit_vector);
        }
    } else if is_leading_byte_width_3(b0) {
    } else {
        let b1 = s[1];
        let b2 = s[2];
        let b3 = s[3];
        assert(b0 <= 0xF4) by {
            assert((0xF5 <= b0 && b0 <= 0xF7) ==> ((((b0 & 0x07) as u32) << 18) | (((b1
                & 0x3F) as u32) << 12) | (((b2 & 0x3F) as u32) << 6) | ((b3 & 0x3F) as u32))
                > 0x10FFFF) by (bit_vector);
        }
    }
}

/// With the right shape of continuation bytes in place, validity of the
/// first scalar comes down to the first continuation byte lying in the
/// restricted range for its lead.
proof fn lemma_first_cont_range(s: Seq<u8>)
    requires
        s.len() >= 1,
        2 <= multibyte_width(s[0]),
        multibyte_width(s[0]) <= s.len(),
        is_continuation_byte(s[1]),
        multibyte_width(s[0]) >= 3 ==> is_continuation_byte(s[2]),
        multibyte_width(s[0]) == 4 ==> is_continuation_byte(s[3]),
    ensures
        valid_first_scalar(s) <==> (first_cont_min(s[0]) <= s[1] && s[1] <= first_cont_max(s[0])),
{
    let b0 = s[0];
    let b1 = s[1];
    if multibyte_width(b0) == 2 {
        assert(0x80 <= ((((b0 & 0x1F) as u32) << 6) | ((b1 & 0x3F) as u32)) <= 0x7FF)
            by (bit_vector)
            requires
                0xC2 <= b0 && b0 <= 0xDF && 0x80 <= b1 && b1 <= 0xBF,
        ;
    } else if multibyte_width(b0) == 3 {
        let b2 = s[2];
        let cp = codepoint_width_3(b0, b1, b2);
        assert(cp == ((((b0 & 0x0F) as u32) << 12) | (((b1 & 0x3F) as u32) << 6) | ((b2
            & 0x3F) as u32)));
        if b0 == 0xE0 {
            assert((0x800 <= ((((b0 & 0x0F) as u32) << 12) | (((b1 & 0x3F) as u32) << 6) | ((b2
                & 0x3F) as u32)) <==> 0xA0 <= b1) && ((((b0 & 0x0F) as u32) << 12) | (((b1
                & 0x3F) as u32) << 6) | ((b2 & 0x3F) as u32)) <= 0xFFF) by (bit_vector)
                requires
                    b0 == 0xE0 && 0x80 <= b1 && b1 <= 0xBF && 0x80 <= b2 && b2 <= 0xBF,
            ;
        } else if b0 == 0xED {
            assert(0xD000 <= ((((b0 & 0x0F) as u32) << 12) | (((b1 & 0x3F) as u32) << 6) | ((b2
                & 0x3F) as u32)) <= 0xDFFF && (((((b0 & 0x0F) as u32) << 12) | (((b1
                & 0x3F) as u32) << 6) | ((b2 & 0x3F) as u32)) < 0xD800 <==> b1 <= 0x9F))
                by (bit_vector)
                requires
                    b0 == 0xED && 0x80 <= b1 && b1 <= 0xBF && 0x80 <= b2 && b2 <= 0xBF,
            ;
        } else {
            assert(0x800 <= ((((b0 & 0x0F) as u32) << 12) | (((b1 & 0x3F) as u32) << 6) | ((b2
                & 0x3F) as u32)) <= 0xFFFF && !(0xD800 <= ((((b0 & 0x0F) as u32) << 12) | (((b1
                & 0x3F) as u32) << 6) | ((b2 & 0x3F) as u32)) <= 0xDFFF)) by (bit_vector)
                requires
                    0xE0 <= b0 && b0 <= 0xEF && b0 != 0xE0 && b0 != 0xED && 0x80 <= b1 && b1
                        <= 0xBF && 0x80 <= b2 && b2 <= 0xBF,
            ;
        }
    } else {
        let b2 = s[2];
        let b3 = s[3];
        let cp = codepoint_width_4(b0, b1, b2, b3);
        assert(cp == ((((b0 & 0x07) as u32) << 18) | (((b1 & 0x3F) as u32) << 12) | (((b2
            & 0x3F) as u32) << 6) | ((b3 & 0x3F) as u32)));
        if b0 == 0xF0 {
            assert((0x10000 <= ((((b0 & 0x07) as u32) << 18) | (((b1 & 0x3F) as u32) << 12) | (((b2
                & 0x3F) as u32) << 6) | ((b3 & 0x3F) as u32)) <==> 0x90 <= b1) && ((((b0
                & 0x07) as u32) << 18) | (((b1 & 0x3F) as u32) << 12) | (((b2 & 0x3F) as u32) << 6)
                | ((b3 & 0x3F) as u32)) <= 0x3FFFF) by (bit_vector)
                requires
                    b0 == 0xF0 && 0x80 <= b1 && b1 <= 0xBF && 0x80 <= b2 && b2 <= 0xBF && 0x80 <= b3
                        && b3 <= 0xBF,
            ;
        } else if b0 == 0xF4 {
            assert(0x100000 <= ((((b0 & 0x07) as u32) << 18) | (((b1 & 0x3F) as u32) << 12) | (((b2
                & 0x3F) as u32) << 6) | ((b3 & 0x3F) as u32)) && (((((b0 & 0x07) as u32) << 18)
                | (((b1 & 0x3F) as u32) << 12) | (((b2 & 0x3F) as u32) << 6) | ((b3
                & 0x3F) as u32)) <= 0x10FFFF <==> b1 <= 0x8F)) by (bit_vector)
                requires
                    b0 == 0xF4 && 0x80 <= b1 && b1 <= 0xBF && 0x80 <= b2 && b2 <= 0xBF && 0x80 <= b3
                        && b3 <= 0xBF,
            ;
        } else {
            assert(0x40000 <= ((((b0 & 0x07) as u32) << 18) | (((b1 & 0x3F) as u32) << 12) | (((b2
                & 0x3F) as u32) << 6) | ((b3 & 0x3F) as u32)) <= 0xFFFFF) by (bit_vector)
                requires
                    0xF1 <= b0 && b0 <= 0xF3 && 0x80 <= b1 && b1 <= 0xBF && 0x80 <= b2 && b2
                        <= 0xBF && 0x80 <= b3 && b3 <= 0xBF,
            ;
        }
    }
}

/// A byte that is neither ASCII nor a multi-byte lead can never begin a
/// valid scalar encoding.
proof fn lemma_invalid_lead(s: Seq<u8>)
    requires
        s.len() >= 1,
        !is_leading_byte_width_1(s[0]),
        multibyte_width(s[0]) == 0,
    ensures
        !valid_first_scalar(s),
{
    let b0 = s[0];
    if valid_first_scalar(s) {
        if is_leading_byte_width_2(b0) {
            let b1 = s[1];
            assert(((((b0 & 0x1F) as u32) << 6) | ((b1 & 0x3F) as u32)) < 0x80) by (bit_vector)
                requires
                    0xC0 <= b0 && b0 <= 0xC1,
            ;
        } else if is_leading_byte_width_4(b0) {
            let b1 = s[1];
            let b2 = s[2];
            let b3 = s[3];
            assert(((((b0 & 0x07) as u32) << 18) | (((b1 & 0x3F) as u32) << 12) | (((b2
                & 0x3F) as u32) << 6) | ((b3 & 0x3F) as u32)) > 0x10FFFF) by (bit_vector)
                requires
                    0xF5 <= b0 && b0 <= 0xF7,
            ;
        }
    }
}

/// A first continuation byte outside the restricted range for its lead
/// rules the first scalar out, whatever follows.
proof fn lemma_bad_first_cont(s: Seq<u8>)
    requires
        s.len() >= 2,
        2 <= multibyte_width(s[0]),
        !(first_cont_min(s[0]) <= s[1] && s[1] <= first_cont_max(s[0])),
    ensures
        !valid_first_scalar(s),
{
    if valid_first_scalar(s) {
        lemma_valid_lead_class(s);
        lemma_first_cont_range(s);
    }
}

/// An incomplete scalar prefix is itself never a valid scalar encoding.
proof fn lemma_incomplete_not_first_scalar(s: Seq<u8>)
    requires
        is_incomplete_scalar_prefix(s),
    ensures
        !valid_first_scalar(s),
{
    if valid_first_scalar(s) {
        lemma_valid_lead_class(s);
    }
}

/// The first scalar of a sequence is unchanged by appending more bytes.
proof fn lemma_first_scalar_extend(a: Seq<u8>, b: Seq<u8>)
    requires
        valid_first_scalar(a),
    ensures
        valid_first_scalar(a + b),
        length_of_first_scalar(a + b) == length_of_first_scalar(a),
        pop_first_scalar(a + b) == pop_first_scalar(a) + b,
{
    lemma_valid_lead_class(a);
    let w = length_of_first_scalar(a);
    assert(forall|k: int| 0 <= k < a.len() ==> (a + b)[k] == a[k]);
    assert(pop_first_scalar(a + b) =~= pop_first_scalar(a) + b);
}

/// If a sequence holds at least the whole first scalar of an extension
/// of it, that scalar is already the sequence's own first scalar.
proof fn lemma_first_scalar_restrict(a: Seq<u8>, b: Seq<u8>)
    requires
        valid_first_scalar(a + b),
        a.len() >= length_of_first_scalar(a + b),
    ensures
        valid_first_scalar(a),
        length_of_first_scalar(a) == length_of_first_scalar(a + b),
{
    lemma_valid_lead_class(a + b);
    assert(forall|k: int| 0 <= k < a.len() ==> (a + b)[k] == a[k]);
}

/// Removing a valid UTF-8 prefix from a valid UTF-8 sequence leaves a
/// valid UTF-8 sequence.
pub proof fn lemma_valid_prefix_remainder(a: Seq<u8>, b: Seq<u8>)
    requires
        valid_utf8(a),
        valid_utf8(a + b),
    ensures
        valid_utf8(b),
    decreases a.len(),
{
    if a.len() == 0 {
        assert(a + b =~= b);
    } else {
        lemma_first_scalar_extend(a, b);
        lemma_valid_prefix_remainder(pop_first_scalar(a), b);
    }
}

/// Valid UTF-8 followed by an incomplete scalar prefix is never valid
/// UTF-8 as a whole: the carried-over tail bytes are exactly the bytes
/// a complete stream cannot end with.
pub proof fn lemma_incomplete_tail_not_valid(text: Seq<u8>, tail: Seq<u8>)
    requires
        valid_utf8(text),
        is_incomplete_scalar_prefix(tail),
    ensures
        !valid_utf8(text + tail),
{
    if valid_utf8(text + tail) {
        lemma_valid_prefix_remainder(text, tail);
        lemma_incomplete_not_first_scalar(tail);
    }
}

/// Valid UTF-8 followed by nothing or an incomplete scalar prefix is an
/// acceptable stream prefix.
pub proof fn lemma_acceptable_compose(a: Seq<u8>, p: Seq<u8>)
    requires
        valid_utf8(a),
        p.len() == 0 || is_incomplete_scalar_prefix(p),
    ensures
        acceptable_stream_prefix(a + p),
    decreases a.len(),
{
    if a.len() == 0 {
        assert(a + p =~= p);
        if p.len() != 0 {
            lemma_incomplete_not_first_scalar(p);
        }
    } else {
        lemma_first_scalar_extend(a, p);
        lemma_acceptable_compose(pop_first_scalar(a), p);
    }
}

/// Once the consumed bytes stop being an acceptable stream prefix, no
/// continuation of the stream can make them valid UTF-8 again.
pub proof fn lemma_unacceptable_never_valid(p: Seq<u8>, ext: Seq<u8>)
    requires
        !acceptable_stream_prefix(p),
    ensures
        !valid_utf8(p + ext),
    decreases p.len(),
{
    if valid_utf8(p + ext) {
        assert(p.len() != 0);
        if valid_first_scalar(p) {
            lemma_first_scalar_extend(p, ext);
            lemma_unacceptable_never_valid(pop_first_scalar(p), ext);
        } else {
            let whole = p + ext;
            assert(whole.len() != 0);
            lemma_valid_lead_class(whole);
            let w = length_of_first_scalar(whole);
            if p.len() >= w {
                lemma_first_scalar_restrict(p, ext);
            } else {
                assert(forall|k: int| 0 <= k < p.len() ==> whole[k] == p[k]);
                assert(!is_leading_byte_width_1(p[0]));
                assert(multibyte_width(p[0]) == w);
                lemma_first_cont_range(whole);
                assert(is_incomplete_scalar_prefix(p));
            }
        }
    }
}

/// How a scan of the bytes consumed so far classifies them.
pub enum ScanOutcome {
    /// The whole buffer is valid UTF-8.
    Complete,
    /// The buffer is valid UTF-8 up to the given index, and the bytes
    /// from there on begin one multi-byte scalar encoding that later
    /// bytes can complete.
    Partial(usize),
    /// No continuation of the stream can make the buffer valid UTF-8.
    Malformed,
}

/// Classifies the buffer: valid UTF-8, valid UTF-8 with at most three
/// trailing bytes of one unfinished multi-byte character, or malformed.
pub fn scan_stream_bytes(buf: &Vec<u8>) -> (r: ScanOutcome)
    ensures
        r matches ScanOutcome::Complete ==> valid_utf8(buf@),
        r matches ScanOutcome::Partial(b) ==> b < buf@.len() && valid_utf8(
            buf@.subrange(0, b as int),
        ) && is_incomplete_scalar_prefix(buf@.subrange(b as int, buf@.len() as int)),
        r matches ScanOutcome::Malformed ==> !acceptable_stream_prefix(buf@),
{
    let ghost all = buf@;
    let len: usize = buf.len();
    let mut i: usize = 0;
    proof {
        assert(all.subrange(0, 0) =~= Seq::<u8>::empty());
        assert(all.subrange(0, len as int) =~= all);
    }
    while i < len
        invariant
            0 <= i <= len,
            len == all.len(),
            all == buf@,
            valid_utf8(all.subrange(0, i as int)),
            acceptable_stream_prefix(all) == acceptable_stream_prefix(
                all.subrange(i as int, len as int),
            ),
            valid_utf8(all) == valid_utf8(all.subrange(i as int, len as int)),
        decreases len - i,
    {
        let ghost rest = all.subrange(i as int, len as int);
        let b0 = buf[i];
        if b0 < 0x80 {
            proof {
                assert(valid_first_scalar(rest));
                assert(length_of_first_scalar(rest) == 1);
                vstd::utf8::partial_valid_utf8_extend(all, i as int);
                assert(pop_first_scalar(rest) =~= all.subrange(i as int + 1, len as int));
            }
            i = i + 1;
        } else {
            let w: usize = if 0xC2 <= b0 && b0 <= 0xDF {
                2
            } else if 0xE0 <= b0 && b0 <= 0xEF {
                3
            } else if 0xF0 <= b0 && b0 <= 0xF4 {
                4
            } else {
                0
            };
            if w == 0 {
                proof {
                    lemma_invalid_lead(rest);
                }
                return ScanOutcome::Malformed;
            }
            let lo: u8 = if b0 == 0xE0 {
                0xA0
            } else if b0 == 0xF0 {
                0x90
            } else {
                0x80
            };
            let hi: u8 = if b0 == 0xED {
                0x9F
            } else if b0 == 0xF4 {
                0x8F
            } else {
                0xBF
            };
            let have: usize = len - i;
            if have >= 2 && w >= 2 {
                let b1 = buf[i + 1];
                if b1 < lo || b1 > hi {
                    proof {
                        lemma_bad_first_cont(rest);
                    }
                    return ScanOutcome::Malformed;
                }
            }
            if have >= 3 && w >= 3 {
                let b2 = buf[i + 2];
                if b2 < 0x80 || b2 > 0xBF {
                    proof {
                        assert(rest[2] == all[i as int + 2]);
                        assert(!valid_first_scalar(rest));
                        assert(!is_incomplete_scalar_prefix(rest));
                    }
                    return ScanOutcome::Malformed;
                }
            }
            if have >= 4 && w >= 4 {
                let b3 = buf[i + 3];
                if b3 < 0x80 || b3 > 0xBF {
                    proof {
                        assert(rest[3] == all[i as int + 3]);
                        assert(!valid_first_scalar(rest));
                        assert(!is_incomplete_scalar_prefix(rest));
                    }
                    return ScanOutcome::Malformed;
                }
            }
            if have < w {
                proof {
                    assert(is_incomplete_scalar_prefix(rest));
                    lemma_incomplete_not_first_scalar(rest);
                }
                return ScanOutcome::Partial(i);
            }
            proof {
                lemma_first_cont_range(rest);
                assert(valid_first_scalar(rest));
                lemma_valid_lead_class(rest);
                vstd::utf8::partial_valid_utf8_extend(all, i as int);
                assert(pop_first_scalar(rest) =~= all.subrange(i as int + w as int, len as int));
            }
            i = i + w;
        }
    }
    proof {
        assert(all.subrange(i as int, len as int) =~= Seq::<u8>::empty());
        assert(all.subrange(0, len as int) =~= all);
    }
    ScanOutcome::Complete
}

} // verus!
