//! The output reader: reassembles the child's raw output bytes into maximal
//! valid UTF-8 segments across read boundaries, bounds the memory retained
//! for incomplete sequences, and produces the per-session event stream.
//!
//! The embedding application runs one blocking read loop per session and
//! hands every read result to an [`OutputReader`]; every decision — what to
//! emit, what to retain, when to flush lossily — is made and verified here.

use vstd::prelude::*;
use vstd::utf8::codepoint_width_1;
use vstd::utf8::decode_utf8;
use vstd::utf8::decode_utf8_split;
use vstd::utf8::is_char_boundary;
use vstd::utf8::is_char_boundary_iff_not_is_continuation_byte;
use vstd::utf8::is_char_boundary_start_end_of_seq;
use vstd::utf8::valid_utf8_concat;
use vstd::utf8::codepoint_width_2;
use vstd::utf8::codepoint_width_3;
use vstd::utf8::codepoint_width_4;
use vstd::utf8::is_continuation_byte;
use vstd::utf8::is_leading_byte_width_1;
use vstd::utf8::is_leading_byte_width_2;
use vstd::utf8::is_leading_byte_width_3;
use vstd::utf8::is_leading_byte_width_4;
use vstd::utf8::length_of_first_scalar;
use vstd::utf8::not_overlong_encoding;
use vstd::utf8::not_surrogate;
use vstd::utf8::partial_valid_partial_invalid_utf8;
use vstd::utf8::partial_valid_utf8;
use vstd::utf8::partial_valid_utf8_extend;
use vstd::utf8::valid_first_scalar;
use vstd::utf8::valid_leading_and_continuation_bytes_first_codepoint;
use vstd::utf8::valid_utf8;

verus! {

/// The size of one read into the chunk buffer, in bytes.
pub const READ_CHUNK_SIZE: usize = 8192;

/// The ceiling on bytes retained while waiting for a complete character; a
/// buffer growing past it is flushed lossily.
pub const MAX_LEFTOVER_SIZE: usize = 65536;

// ---------------------------------------------------------------------------
// Byte-level facts about single scalar encodings, proved by bit vector
// reasoning against the UTF-8 specification of `vstd::utf8`.
// ---------------------------------------------------------------------------

proof fn bv_accept1(b0: u8)
    by (bit_vector)
    requires
        b0 <= 0x7f,
    ensures
        not_overlong_encoding(codepoint_width_1(b0), 1),
        not_surrogate(codepoint_width_1(b0)),
{
}

proof fn bv_accept2(b0: u8, b1: u8)
    by (bit_vector)
    requires
        0xc2 <= b0 <= 0xdf,
        0x80 <= b1 <= 0xbf,
    ensures
        not_overlong_encoding(codepoint_width_2(b0, b1), 2),
        not_surrogate(codepoint_width_2(b0, b1)),
{
}

proof fn bv_reject2(b0: u8, b1: u8)
    by (bit_vector)
    requires
        0xc0 <= b0 <= 0xc1,
    ensures
        !not_overlong_encoding(codepoint_width_2(b0, b1), 2),
{
}

proof fn bv_accept3(b0: u8, b1: u8, b2: u8)
    by (bit_vector)
    requires
        0x80 <= b1 <= 0xbf,
        0x80 <= b2 <= 0xbf,
        (b0 == 0xe0 && 0xa0 <= b1) || (0xe1 <= b0 <= 0xec) || (b0 == 0xed && b1 <= 0x9f) || (0xee
            <= b0 <= 0xef),
    ensures
        not_overlong_encoding(codepoint_width_3(b0, b1, b2), 3),
        not_surrogate(codepoint_width_3(b0, b1, b2)),
{
}

proof fn bv_reject3(b0: u8, b1: u8, b2: u8)
    by (bit_vector)
    requires
        0x80 <= b1 <= 0xbf,
        (b0 == 0xe0 && b1 < 0xa0) || (b0 == 0xed && b1 > 0x9f),
    ensures
        !(not_overlong_encoding(codepoint_width_3(b0, b1, b2), 3) && not_surrogate(
            codepoint_width_3(b0, b1, b2),
        )),
{
}

proof fn bv_accept4(b0: u8, b1: u8, b2: u8, b3: u8)
    by (bit_vector)
    requires
        0x80 <= b1 <= 0xbf,
        0x80 <= b2 <= 0xbf,
        0x80 <= b3 <= 0xbf,
        (b0 == 0xf0 && 0x90 <= b1) || (0xf1 <= b0 <= 0xf3) || (b0 == 0xf4 && b1 <= 0x8f),
    ensures
        not_overlong_encoding(codepoint_width_4(b0, b1, b2, b3), 4),
        not_surrogate(codepoint_width_4(b0, b1, b2, b3)),
{
}

proof fn bv_reject4(b0: u8, b1: u8, b2: u8, b3: u8)
    by (bit_vector)
    requires
        0x80 <= b1 <= 0xbf,
        (b0 == 0xf0 && b1 < 0x90) || (b0 == 0xf4 && b1 > 0x8f) || (0xf5 <= b0 <= 0xf7),
    ensures
        !not_overlong_encoding(codepoint_width_4(b0, b1, b2, b3), 4),
{
}

// ---------------------------------------------------------------------------
// The boundary scanner.
// ---------------------------------------------------------------------------

fn is_cont(b: u8) -> (r: bool)
    ensures
        r == is_continuation_byte(b),
{
    0x80 <= b && b <= 0xbf
}

/// A well-formed scalar encoding at the start of `t` is still one at the
/// start of any extension of `t`: the check reads only the scalar's own
/// bytes.
proof fn lemma_valid_first_scalar_widen(t: Seq<u8>, u: Seq<u8>)
    requires
        valid_first_scalar(t),
        t.len() <= u.len(),
        forall|j: int| 0 <= j < t.len() ==> t[j] == u[j],
    ensures
        valid_first_scalar(u),
{
    assert(t.len() >= 1);
    assert(u[0] == t[0]);
    if is_leading_byte_width_1(t[0]) {
    } else if is_leading_byte_width_2(t[0]) {
        assert(t.len() >= 2);
        assert(u[1] == t[1]);
    } else if is_leading_byte_width_3(t[0]) {
        assert(t.len() >= 3);
        assert(u[1] == t[1]);
        assert(u[2] == t[2]);
    } else {
        assert(t.len() >= 4);
        assert(u[1] == t[1]);
        assert(u[2] == t[2]);
        assert(u[3] == t[3]);
    }
}

/// When the scan of `s` stops at position `i` — the prefix decodes but no
/// scalar encoding starts at `i` — no longer prefix of `s` is valid UTF-8.
proof fn lemma_utf8_prefix_maximal(s: Seq<u8>, i: int)
    requires
        0 <= i <= s.len(),
        valid_utf8(s.subrange(0, i)),
        !valid_first_scalar(s.subrange(i, s.len() as int)),
    ensures
        forall|m: int| i < m <= s.len() ==> !valid_utf8(s.subrange(0, m)),
{
    assert forall|m: int| i < m <= s.len() implies !valid_utf8(s.subrange(0, m)) by {
        if valid_utf8(s.subrange(0, m)) {
            let pm = s.subrange(0, m);
            let mid = s.subrange(i, m);
            assert(pm.subrange(0, i) =~= s.subrange(0, i));
            assert(pm.subrange(i, pm.len() as int) =~= mid);
            if valid_utf8(mid) {
                assert(valid_first_scalar(mid));
                lemma_valid_first_scalar_widen(mid, s.subrange(i, s.len() as int));
                assert(false);
            }
            partial_valid_partial_invalid_utf8(pm, i);
            assert(false);
        }
    }
}

/// The byte length of the scalar encoding at position `i` of `s`, or `0`
/// when no well-formed scalar encoding starts there (an invalid sequence, or
/// one cut short by the end of the buffer).
fn utf8_step(s: &[u8], i: usize) -> (k: usize)
    requires
        i < s@.len(),
    ensures
        i + k <= s@.len(),
        k > 0 ==> valid_first_scalar(s@.subrange(i as int, s@.len() as int))
            && length_of_first_scalar(s@.subrange(i as int, s@.len() as int)) == k,
        k == 0 ==> !valid_first_scalar(s@.subrange(i as int, s@.len() as int)),
{
    let n = s.len();
    let rem = n - i;
    let ghost suf = s@.subrange(i as int, n as int);
    proof {
        assert(suf.len() == rem);
        assert(suf[0] == s@[i as int]);
    }
    let b0 = s[i];
    if b0 < 0x80 {
        proof {
            bv_accept1(b0);
        }
        1
    } else if b0 < 0xc2 {
        // a bare continuation byte, or one of the two overlong two-byte leads
        proof {
            if valid_leading_and_continuation_bytes_first_codepoint(suf) {
                assert(0xc0 <= b0);
                assert(suf.len() >= 2);
                bv_reject2(b0, suf[1]);
            }
        }
        0
    } else if b0 < 0xe0 {
        if rem < 2 {
            return 0;
        }
        let b1 = s[i + 1];
        proof {
            assert(suf[1] == b1);
        }
        if !is_cont(b1) {
            return 0;
        }
        proof {
            bv_accept2(b0, b1);
        }
        2
    } else if b0 < 0xf0 {
        if rem < 3 {
            return 0;
        }
        let b1 = s[i + 1];
        let b2 = s[i + 2];
        proof {
            assert(suf[1] == b1);
            assert(suf[2] == b2);
        }
        if !is_cont(b1) || !is_cont(b2) {
            return 0;
        }
        let b1_ok = if b0 == 0xe0 {
            b1 >= 0xa0
        } else if b0 == 0xed {
            b1 <= 0x9f
        } else {
            true
        };
        if b1_ok {
            proof {
                bv_accept3(b0, b1, b2);
            }
            3
        } else {
            proof {
                bv_reject3(b0, b1, b2);
            }
            0
        }
    } else if b0 < 0xf5 {
        if rem < 4 {
            return 0;
        }
        let b1 = s[i + 1];
        let b2 = s[i + 2];
        let b3 = s[i + 3];
        proof {
            assert(suf[1] == b1);
            assert(suf[2] == b2);
            assert(suf[3] == b3);
        }
        if !is_cont(b1) || !is_cont(b2) || !is_cont(b3) {
            return 0;
        }
        let b1_ok = if b0 == 0xf0 {
            b1 >= 0x90
        } else if b0 == 0xf4 {
            b1 <= 0x8f
        } else {
            true
        };
        if b1_ok {
            proof {
                bv_accept4(b0, b1, b2, b3);
            }
            4
        } else {
            proof {
                bv_reject4(b0, b1, b2, b3);
            }
            0
        }
    } else {
        // 0xF5–0xF7 encode values beyond the scalar range; 0xF8–0xFF are no
        // leading bytes at all
        proof {
            if valid_leading_and_continuation_bytes_first_codepoint(suf) {
                assert(0xf0 <= b0 && b0 <= 0xf7);
                assert(suf.len() >= 4);
                bv_reject4(b0, suf[1], suf[2], suf[3]);
            }
        }
        0
    }
}

/// The length of the longest prefix of `s` that is valid UTF-8: that prefix
/// decodes, and every longer prefix does not.
#[verifier::loop_isolation(false)]
pub fn utf8_valid_prefix_len(s: &[u8]) -> (r: usize)
    ensures
        r <= s@.len(),
        valid_utf8(s@.subrange(0, r as int)),
        forall|m: int| r < m <= s@.len() ==> !valid_utf8(s@.subrange(0, m)),
{
    let n = s.len();
    let mut i: usize = 0;
    proof {
        assert(s@.subrange(0, 0) =~= Seq::<u8>::empty());
    }
    while i < n
        invariant
            0 <= i <= n,
            valid_utf8(s@.subrange(0, i as int)),
        decreases n - i,
    {
        let k = utf8_step(s, i);
        if k == 0 {
            proof {
                lemma_utf8_prefix_maximal(s@, i as int);
            }
            return i;
        }
        proof {
            assert(partial_valid_utf8(s@, i as int));
            partial_valid_utf8_extend(s@, i as int);
        }
        i = i + k;
    }
    i
}

// ---------------------------------------------------------------------------
// The per-session decoder.
// ---------------------------------------------------------------------------

/// What one pushed chunk produced.
pub enum ChunkOutput {
    /// Nothing to emit yet: everything received so far past the last
    /// boundary is retained, pending a complete character.
    Pending,
    /// A maximal valid UTF-8 segment to emit as text.
    Text(Vec<u8>),
    /// The retained bytes grew past the ceiling without a decodable
    /// boundary: the whole buffer, to be emitted through a lossy decode.
    LossyFlush(Vec<u8>),
}

/// Appends `src` to `dst`.
#[verifier::loop_isolation(false)]
fn append_bytes(dst: &mut Vec<u8>, src: &[u8])
    ensures
        final(dst)@ == old(dst)@ + src@,
{
    let n = src.len();
    let mut i: usize = 0;
    while i < n
        invariant
            0 <= i <= n,
            n == src@.len(),
            dst@ == old(dst)@ + src@.subrange(0, i as int),
        decreases n - i,
    {
        dst.push(src[i]);
        proof {
            assert(dst@ =~= old(dst)@ + src@.subrange(0, i as int + 1));
        }
        i = i + 1;
    }
    proof {
        assert(old(dst)@ + src@.subrange(0, n as int) =~= old(dst)@ + src@);
    }
}

/// Reassembles one session's output stream: bytes arrive in arbitrary read
/// chunks, text leaves in maximal valid UTF-8 segments, undecoded suffixes
/// are retained up to a fixed ceiling, and everything is flushed at the end.
///
/// The two ghost sequences record the entire history of the stream: every
/// byte ever pushed, and every byte ever handed out for emission. The
/// invariant ties them together: nothing is lost, duplicated or reordered.
pub struct OutputDecoder {
    /// Bytes retained past the last emitted boundary.
    pub leftover: Vec<u8>,
    /// Whether the terminal status has been produced; no further input is
    /// accepted afterwards.
    pub done: bool,
    /// Every byte ever pushed, in order.
    pub pushed: Ghost<Seq<u8>>,
    /// Every byte ever emitted, in order.
    pub emitted: Ghost<Seq<u8>>,
}

impl OutputDecoder {
    /// Emitted bytes followed by retained bytes are exactly the pushed
    /// bytes, and the retained buffer never exceeds the ceiling.
    pub open spec fn inv(&self) -> bool {
        &&& self.emitted@ + self.leftover@ == self.pushed@
        &&& self.leftover@.len() <= MAX_LEFTOVER_SIZE
    }

    /// Every byte ever pushed, in order.
    pub open spec fn bytes_pushed(&self) -> Seq<u8> {
        self.pushed@
    }

    /// Every byte ever emitted, in order.
    pub open spec fn bytes_emitted(&self) -> Seq<u8> {
        self.emitted@
    }

    /// The bytes retained, pending a complete character.
    pub open spec fn residual(&self) -> Seq<u8> {
        self.leftover@
    }

    /// Whether the stream has ended and the terminal status was produced.
    pub open spec fn is_done(&self) -> bool {
        self.done
    }

    /// A decoder for a fresh stream.
    pub fn new() -> (r: OutputDecoder)
        ensures
            r.inv(),
            !r.is_done(),
            r.bytes_pushed() == Seq::<u8>::empty(),
            r.bytes_emitted() == Seq::<u8>::empty(),
            r.residual() == Seq::<u8>::empty(),
    {
        let r = OutputDecoder {
            leftover: Vec::new(),
            done: false,
            pushed: Ghost(Seq::empty()),
            emitted: Ghost(Seq::empty()),
        };
        proof {
            assert(r.emitted@ + r.leftover@ =~= r.pushed@);
        }
        r
    }

    /// Takes one read chunk and decides what to emit.
    ///
    /// If the retained bytes would grow past the ceiling, everything is
    /// flushed for lossy decoding. Otherwise the longest prefix that is
    /// valid UTF-8 is emitted — so a multi-byte character whose encoding was
    /// split across chunks leaves whole, in one segment — and only the
    /// undecoded suffix is retained.
    pub fn push_chunk(&mut self, chunk: &[u8]) -> (out: ChunkOutput)
        requires
            old(self).inv(),
            !old(self).is_done(),
            chunk@.len() <= READ_CHUNK_SIZE,
        ensures
            final(self).inv(),
            !final(self).is_done(),
            final(self).bytes_pushed() == old(self).bytes_pushed() + chunk@,
            (out is LossyFlush) <==> old(self).residual().len() + chunk@.len()
                > MAX_LEFTOVER_SIZE,
            match out {
                ChunkOutput::LossyFlush(b) => {
                    &&& b@ == old(self).residual() + chunk@
                    &&& final(self).residual() == Seq::<u8>::empty()
                    &&& final(self).bytes_emitted() == old(self).bytes_emitted() + b@
                },
                ChunkOutput::Text(b) => {
                    &&& 0 < b@.len() <= old(self).residual().len() + chunk@.len()
                    &&& valid_utf8(b@)
                    &&& b@ == (old(self).residual() + chunk@).subrange(0, b@.len() as int)
                    &&& final(self).residual() == (old(self).residual() + chunk@).skip(
                        b@.len() as int,
                    )
                    &&& final(self).bytes_emitted() == old(self).bytes_emitted() + b@
                    &&& forall|m: int|
                        b@.len() < m <= (old(self).residual() + chunk@).len() ==> !valid_utf8(
                            (old(self).residual() + chunk@).subrange(0, m),
                        )
                },
                ChunkOutput::Pending => {
                    &&& final(self).residual() == old(self).residual() + chunk@
                    &&& final(self).bytes_emitted() == old(self).bytes_emitted()
                    &&& forall|m: int|
                        0 < m <= (old(self).residual() + chunk@).len() ==> !valid_utf8(
                            (old(self).residual() + chunk@).subrange(0, m),
                        )
                },
            },
            // a decodable buffer is emitted whole: nothing valid is ever
            // held back or torn apart
            (valid_utf8(old(self).residual() + chunk@) && 0 < (old(self).residual()
                + chunk@).len() <= MAX_LEFTOVER_SIZE) ==> (out matches ChunkOutput::Text(b) && b@
                == old(self).residual() + chunk@),
    {
        let ghost combined = old(self).residual() + chunk@;
        append_bytes(&mut self.leftover, chunk);
        proof {
            self.pushed@ = self.pushed@ + chunk@;
            assert(self.leftover@ == combined);
            assert(self.emitted@ + self.leftover@ =~= self.pushed@);
        }
        if self.leftover.len() > MAX_LEFTOVER_SIZE {
            let b = self.leftover.split_off(0);
            proof {
                assert(b@ == combined);
                self.emitted@ = self.emitted@ + b@;
                assert(self.leftover@ =~= Seq::<u8>::empty());
                assert(self.emitted@ + self.leftover@ =~= self.pushed@);
            }
            ChunkOutput::LossyFlush(b)
        } else {
            let v = utf8_valid_prefix_len(self.leftover.as_slice());
            proof {
                if valid_utf8(combined) && combined.len() > 0 {
                    assert(combined.subrange(0, combined.len() as int) =~= combined);
                    assert(v == combined.len());
                }
            }
            if v == 0 {
                ChunkOutput::Pending
            } else {
                let rest = self.leftover.split_off(v);
                let b = self.leftover.split_off(0);
                self.leftover = rest;
                proof {
                    assert(b@ == combined.subrange(0, v as int));
                    assert(self.leftover@ == combined.skip(v as int));
                    self.emitted@ = self.emitted@ + b@;
                    assert(self.emitted@ + self.leftover@ =~= self.pushed@);
                }
                ChunkOutput::Text(b)
            }
        }
    }

    /// Ends the stream: flushes any retained bytes (for lossy decoding) and
    /// marks the decoder done. Called exactly once per stream, on
    /// end-of-file or on a read error; afterwards every pushed byte has been
    /// emitted.
    pub fn finish(&mut self) -> (residue: Option<Vec<u8>>)
        requires
            old(self).inv(),
            !old(self).is_done(),
        ensures
            final(self).inv(),
            final(self).is_done(),
            final(self).bytes_pushed() == old(self).bytes_pushed(),
            final(self).residual() == Seq::<u8>::empty(),
            final(self).bytes_emitted() == final(self).bytes_pushed(),
            match residue {
                Some(b) => old(self).residual().len() > 0 && b@ == old(self).residual(),
                None => old(self).residual().len() == 0,
            },
    {
        self.done = true;
        if self.leftover.len() > 0 {
            let b = self.leftover.split_off(0);
            proof {
                self.emitted@ = self.emitted@ + b@;
                assert(self.leftover@ =~= Seq::<u8>::empty());
                assert(self.emitted@ + self.leftover@ =~= self.pushed@);
                assert(self.emitted@ =~= self.pushed@);
            }
            Some(b)
        } else {
            proof {
                assert(self.leftover@ =~= Seq::<u8>::empty());
                assert(self.emitted@ =~= self.pushed@);
            }
            None
        }
    }
}

/// Bytes leave the decoder in the order they entered, without duplication or
/// loss: the emitted bytes are always exactly a prefix of the pushed bytes,
/// and the retained buffer is exactly the rest.
pub proof fn lemma_emission_order(d: OutputDecoder)
    requires
        d.inv(),
    ensures
        d.bytes_pushed() == d.bytes_emitted() + d.residual(),
        d.bytes_emitted() == d.bytes_pushed().subrange(0, d.bytes_emitted().len() as int),
{
    assert(d.bytes_pushed().subrange(0, d.bytes_emitted().len() as int) =~= d.bytes_emitted());
}

/// Emitting a stream in two valid segments tears no character: the segments'
/// concatenation is valid, and decoding them separately yields exactly the
/// characters of the whole — so a multi-byte character whose bytes arrived
/// in different reads appears once, intact, in the decoded stream.
pub proof fn lemma_segments_decode_like_whole(a: Seq<u8>, b: Seq<u8>)
    requires
        valid_utf8(a),
        valid_utf8(b),
    ensures
        valid_utf8(a + b),
        decode_utf8(a + b) == decode_utf8(a) + decode_utf8(b),
{
    valid_utf8_concat(a, b);
    let w = a + b;
    let n = a.len() as int;
    if b.len() == 0 {
        assert(w =~= a);
        assert(b =~= Seq::<u8>::empty());
        assert(decode_utf8(a) + decode_utf8(b) =~= decode_utf8(a));
    } else {
        // the first byte of `b` starts a scalar encoding, so it is no
        // continuation byte, and the seam is a character boundary
        assert(valid_first_scalar(b));
        assert(!is_continuation_byte(b[0]));
        assert(w[n] == b[0]);
        is_char_boundary_iff_not_is_continuation_byte(w, n);
        assert(is_char_boundary(w, n));
        decode_utf8_split(w, n);
        assert(w.subrange(0, n) =~= a);
        assert(w.subrange(n, w.len() as int) =~= b);
    }
}

/// The memory retained across reads never exceeds the configured ceiling.
pub proof fn lemma_residual_bounded(d: OutputDecoder)
    requires
        d.inv(),
    ensures
        d.residual().len() <= MAX_LEFTOVER_SIZE,
{
}

// ---------------------------------------------------------------------------
// Events.
// ---------------------------------------------------------------------------

/// A segment of session output. `lossy: false` means `bytes` is valid UTF-8
/// to be shown as-is; `lossy: true` means the consumer substitutes invalid
/// sequences while decoding.
pub struct DataEvent {
    /// The session the bytes belong to, so a consumer can discard events of
    /// an id it no longer considers current.
    pub session_id: u64,
    /// The emitted bytes.
    pub bytes: Vec<u8>,
    /// Whether the segment needs a lossy decode.
    pub lossy: bool,
}

/// How a session's output stream ended.
pub enum SessionStatus {
    /// Clean end-of-file.
    Stopped,
    /// A read failure, with its error text.
    Error(String),
}

/// The single terminal event of a session's stream.
pub struct StatusEvent {
    /// The session that ended.
    pub session_id: u64,
    /// How it ended.
    pub status: SessionStatus,
}

/// One session's output pump state: its id and its decoder. Every event it
/// produces carries the session id.
pub struct OutputReader {
    /// The id every event is tagged with.
    pub session_id: u64,
    /// The reassembly state.
    pub decoder: OutputDecoder,
}

impl OutputReader {
    /// The decoder invariant.
    pub open spec fn inv(&self) -> bool {
        self.decoder.inv()
    }

    /// A reader for a fresh stream of session `session_id`.
    pub fn new(session_id: u64) -> (r: OutputReader)
        ensures
            r.inv(),
            !r.decoder.is_done(),
            r.session_id == session_id,
            r.decoder.bytes_pushed() == Seq::<u8>::empty(),
            r.decoder.bytes_emitted() == Seq::<u8>::empty(),
    {
        OutputReader { session_id, decoder: OutputDecoder::new() }
    }

    /// Takes the bytes of one successful read and returns the data event to
    /// publish, if any. The event carries this reader's session id, and its
    /// bytes extend the emitted history in order.
    pub fn on_read(&mut self, chunk: &[u8]) -> (ev: Option<DataEvent>)
        requires
            old(self).inv(),
            !old(self).decoder.is_done(),
            chunk@.len() <= READ_CHUNK_SIZE,
        ensures
            final(self).inv(),
            !final(self).decoder.is_done(),
            final(self).session_id == old(self).session_id,
            final(self).decoder.bytes_pushed() == old(self).decoder.bytes_pushed() + chunk@,
            match ev {
                Some(e) => {
                    &&& e.session_id == old(self).session_id
                    &&& final(self).decoder.bytes_emitted() == old(self).decoder.bytes_emitted()
                        + e.bytes@
                    &&& (!e.lossy ==> valid_utf8(e.bytes@))
                    &&& (e.lossy <==> old(self).decoder.residual().len() + chunk@.len()
                        > MAX_LEFTOVER_SIZE)
                },
                None => final(self).decoder.bytes_emitted() == old(self).decoder.bytes_emitted(),
            },
    {
        match self.decoder.push_chunk(chunk) {
            ChunkOutput::Pending => None,
            ChunkOutput::Text(b) => Some(
                DataEvent { session_id: self.session_id, bytes: b, lossy: false },
            ),
            ChunkOutput::LossyFlush(b) => Some(
                DataEvent { session_id: self.session_id, bytes: b, lossy: true },
            ),
        }
    }

    /// Ends the stream, on end-of-file (`error` is `None`) or on a read
    /// error (`error` carries its text). Returns the final lossy data event,
    /// if bytes were still retained, and the session's single terminal
    /// status event — callable only once per stream. Both events carry this
    /// reader's session id; afterwards every byte ever read has been
    /// emitted.
    pub fn on_close(&mut self, error: Option<String>) -> (r: (Option<DataEvent>, StatusEvent))
        requires
            old(self).inv(),
            !old(self).decoder.is_done(),
        ensures
            final(self).inv(),
            final(self).decoder.is_done(),
            final(self).session_id == old(self).session_id,
            final(self).decoder.bytes_emitted() == old(self).decoder.bytes_pushed(),
            match r.0 {
                Some(e) => {
                    &&& e.session_id == old(self).session_id
                    &&& e.lossy
                    &&& e.bytes@ == old(self).decoder.residual()
                    &&& old(self).decoder.residual().len() > 0
                },
                None => old(self).decoder.residual().len() == 0,
            },
            r.1.session_id == old(self).session_id,
            match r.1.status {
                SessionStatus::Stopped => error is None,
                SessionStatus::Error(m) => error is Some && m@ == error->Some_0@,
            },
    {
        let residue = self.decoder.finish();
        let data_ev = match residue {
            Some(b) => Some(DataEvent { session_id: self.session_id, bytes: b, lossy: true }),
            None => None,
        };
        let status = match error {
            Some(m) => SessionStatus::Error(m),
            None => SessionStatus::Stopped,
        };
        (data_ev, StatusEvent { session_id: self.session_id, status })
    }
}

} // verus!
