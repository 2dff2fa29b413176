//! The wire format: every message travels as one frame of exactly
//! [`MSG_SIZE`] bytes, the payload first and zero bytes after it.
//!
//! A frame carries no length field. The payload is whatever stands before the
//! first zero byte, so a payload cannot hold a zero byte of its own, and one
//! longer than [`MSG_SIZE`] loses its tail.

use vstd::prelude::*;
use vstd::utf8::*;

verus! {

/// Number of bytes in every frame on the wire. Both ends of a connection must
/// agree on it.
pub const MSG_SIZE: usize = 32;

/// One frame as it travels on the wire. Its view is its [`MSG_SIZE`] bytes.
#[derive(Clone, Copy, Debug, PartialEq, Eq)]
pub struct Frame {
    bytes: [u8; MSG_SIZE],
}

impl View for Frame {
    type V = Seq<u8>;

    closed spec fn view(&self) -> Seq<u8> {
        self.bytes@
    }
}

/// Why a frame could not be turned into a text message.
#[derive(Clone, Copy, Debug, PartialEq, Eq)]
pub enum DecodeError {
    /// The bytes before the first zero byte are not valid UTF-8.
    InvalidEncoding,
}

/// The frame that carries `payload`: the first [`MSG_SIZE`] bytes of the
/// payload, then zero bytes up to the frame's size.
pub open spec fn spec_encode(payload: Seq<u8>) -> Seq<u8> {
    Seq::new(MSG_SIZE as nat, |i: int| if i < payload.len() { payload[i] } else { 0u8 })
}

/// `n` is where the payload of `bytes` ends: no zero byte stands before `n`,
/// and `n` is either the position of a zero byte or the end of `bytes`.
pub open spec fn ends_payload(bytes: Seq<u8>, n: int) -> bool {
    &&& 0 <= n <= bytes.len()
    &&& forall|i: int| 0 <= i < n ==> bytes[i] != 0u8
    &&& n < bytes.len() ==> bytes[n] == 0u8
}

/// Length of the payload of `bytes`: the position of the first zero byte, or
/// the length of `bytes` where there is none.
pub open spec fn payload_len(bytes: Seq<u8>) -> int {
    choose|n: int| ends_payload(bytes, n)
}

/// The payload of `bytes`: everything before the first zero byte.
pub open spec fn spec_payload(bytes: Seq<u8>) -> Seq<u8> {
    bytes.take(payload_len(bytes))
}

/// The text message that `bytes` carry: the payload read as UTF-8, or
/// [`DecodeError::InvalidEncoding`] where the payload is not valid UTF-8.
pub open spec fn spec_decode(bytes: Seq<u8>) -> Result<Seq<char>, DecodeError> {
    if valid_utf8(spec_payload(bytes)) {
        Ok(decode_utf8(spec_payload(bytes)))
    } else {
        Err(DecodeError::InvalidEncoding)
    }
}

/// No byte of `bytes` is zero.
pub open spec fn zero_free(bytes: Seq<u8>) -> bool {
    forall|i: int| 0 <= i < bytes.len() ==> bytes[i] != 0u8
}

/// The text fits into one frame: its UTF-8 form has at most [`MSG_SIZE`]
/// bytes, and none of them is zero.
pub open spec fn fits(text: Seq<char>) -> bool {
    encode_utf8(text).len() <= MSG_SIZE && zero_free(encode_utf8(text))
}

/// Every frame has exactly [`MSG_SIZE`] bytes.
pub proof fn lemma_frame_len(frame: Frame)
    ensures
        frame@.len() == MSG_SIZE,
{
    broadcast use vstd::array::array_len_matches_n;

}

/// At most one position ends the payload of `bytes`.
pub proof fn lemma_ends_payload_unique(bytes: Seq<u8>, n: int, m: int)
    requires
        ends_payload(bytes, n),
        ends_payload(bytes, m),
    ensures
        n == m,
{
    if n < m {
        assert(bytes[n] == 0u8);
    } else if m < n {
        assert(bytes[m] == 0u8);
    }
}

proof fn lemma_payload_end_from(bytes: Seq<u8>, k: int)
    requires
        0 <= k <= bytes.len(),
        forall|i: int| 0 <= i < k ==> bytes[i] != 0u8,
    ensures
        exists|n: int| ends_payload(bytes, n),
    decreases bytes.len() - k,
{
    if k == bytes.len() || bytes[k] == 0u8 {
        assert(ends_payload(bytes, k));
    } else {
        lemma_payload_end_from(bytes, k + 1);
    }
}

/// Every byte sequence has a payload end, and [`payload_len`] is it.
pub proof fn lemma_payload_len_ends(bytes: Seq<u8>)
    ensures
        ends_payload(bytes, payload_len(bytes)),
{
    lemma_payload_end_from(bytes, 0);
}

/// A position that ends the payload of `bytes` is its [`payload_len`].
pub proof fn lemma_payload_len_is(bytes: Seq<u8>, n: int)
    requires
        ends_payload(bytes, n),
    ensures
        payload_len(bytes) == n,
        spec_payload(bytes) == bytes.take(n),
{
    lemma_payload_len_ends(bytes);
    lemma_ends_payload_unique(bytes, n, payload_len(bytes));
}

/// The part of `payload` that fits into a frame: its first [`MSG_SIZE`]
/// bytes, or all of it where it is shorter.
pub open spec fn spec_head(payload: Seq<u8>) -> Seq<u8> {
    if payload.len() <= MSG_SIZE {
        payload
    } else {
        payload.take(MSG_SIZE as int)
    }
}

/// Encoding and then reading the payload back gives what stands before the
/// first zero byte among the first [`MSG_SIZE`] bytes of the payload, for
/// every payload.
pub proof fn lemma_payload_of_encoded(payload: Seq<u8>)
    ensures
        spec_payload(spec_encode(payload)) == spec_payload(spec_head(payload)),
{
    let head = spec_head(payload);
    let frame = spec_encode(payload);
    let n: int = payload_len(head);
    lemma_payload_len_ends(head);
    assert forall|i: int| 0 <= i < head.len() implies frame[i] == head[i] by {
        assert(head[i] == payload[i]);
    }
    assert(ends_payload(frame, n));
    lemma_payload_len_is(frame, n);
    assert(frame.take(n) =~= head.take(n));
}

/// Round trip: a payload of at most [`MSG_SIZE`] bytes, none of them zero,
/// comes back from its frame unchanged.
pub proof fn lemma_roundtrip(payload: Seq<u8>)
    requires
        payload.len() <= MSG_SIZE,
        zero_free(payload),
    ensures
        spec_payload(spec_encode(payload)) == payload,
{
    lemma_payload_of_encoded(payload);
    lemma_payload_len_is(payload, payload.len() as int);
    assert(payload.take(payload.len() as int) =~= payload);
}

/// Truncation: of a payload longer than [`MSG_SIZE`] bytes, the first
/// [`MSG_SIZE`] come back, provided none of those is zero.
pub proof fn lemma_truncation(payload: Seq<u8>)
    requires
        payload.len() > MSG_SIZE,
        zero_free(payload.take(MSG_SIZE as int)),
    ensures
        spec_payload(spec_encode(payload)) == payload.take(MSG_SIZE as int),
{
    let head = payload.take(MSG_SIZE as int);
    lemma_payload_of_encoded(payload);
    lemma_payload_len_is(head, head.len() as int);
    assert(head.take(head.len() as int) =~= head);
}

/// A zero byte inside the payload cannot be told from padding: where the
/// first zero byte of the payload stands at `k`, within the first
/// [`MSG_SIZE`] bytes, only the `k` bytes before it come back.
pub proof fn lemma_interior_zero(payload: Seq<u8>, k: int)
    requires
        0 <= k < payload.len(),
        k < MSG_SIZE,
        payload[k] == 0u8,
        zero_free(payload.take(k)),
    ensures
        spec_payload(spec_encode(payload)) == payload.take(k),
{
    let head = spec_head(payload);
    lemma_payload_of_encoded(payload);
    assert forall|i: int| 0 <= i < k implies head[i] != 0u8 by {
        assert(payload.take(k)[i] == payload[i]);
    }
    lemma_payload_len_is(head, k);
    assert(head.take(k) =~= payload.take(k));
}

/// The empty payload travels as a frame of zero bytes only, which reads back
/// as the empty payload and as the empty text.
pub proof fn lemma_empty_payload()
    ensures
        spec_encode(Seq::<u8>::empty()) == Seq::new(MSG_SIZE as nat, |i: int| 0u8),
        spec_payload(spec_encode(Seq::<u8>::empty())) == Seq::<u8>::empty(),
        spec_decode(spec_encode(Seq::<u8>::empty())) == Ok::<Seq<char>, DecodeError>(
            Seq::<char>::empty(),
        ),
{
    let empty = Seq::<u8>::empty();
    assert(spec_encode(empty) =~= Seq::new(MSG_SIZE as nat, |i: int| 0u8));
    lemma_roundtrip(empty);
    assert(encode_utf8(Seq::<char>::empty()) =~= empty);
    lemma_text_roundtrip(Seq::<char>::empty());
}

/// Round trip for text: a message that fits into a frame decodes from its
/// frame to the same message.
pub proof fn lemma_text_roundtrip(text: Seq<char>)
    requires
        fits(text),
    ensures
        spec_decode(spec_encode(encode_utf8(text))) == Ok::<Seq<char>, DecodeError>(text),
{
    lemma_roundtrip(encode_utf8(text));
    encode_utf8_valid_utf8(text);
    encode_utf8_decode_utf8(text);
}

/// Whatever decodes from a frame fits into a frame, and its UTF-8 form is the
/// frame's payload.
pub proof fn lemma_decoded_text_fits(frame: Frame, text: Seq<char>)
    requires
        spec_decode(frame@) == Ok::<Seq<char>, DecodeError>(text),
    ensures
        fits(text),
        encode_utf8(text) == spec_payload(frame@),
{
    lemma_frame_len(frame);
    lemma_payload_len_ends(frame@);
    decode_utf8_encode_utf8(spec_payload(frame@));
}

/// Truncation for text: of a message whose UTF-8 form is longer than
/// [`MSG_SIZE`] bytes, the characters in the first [`MSG_SIZE`] bytes come
/// back, provided none of those bytes is zero and the cut falls between two
/// characters. Where the cut falls inside a character, the frame does not
/// decode.
pub proof fn lemma_text_truncation(text: Seq<char>)
    requires
        encode_utf8(text).len() > MSG_SIZE,
        zero_free(encode_utf8(text).take(MSG_SIZE as int)),
    ensures
        spec_decode(spec_encode(encode_utf8(text))) == if valid_utf8(
            encode_utf8(text).take(MSG_SIZE as int),
        ) {
            Ok::<Seq<char>, DecodeError>(decode_utf8(encode_utf8(text).take(MSG_SIZE as int)))
        } else {
            Err::<Seq<char>, DecodeError>(DecodeError::InvalidEncoding)
        },
{
    lemma_truncation(encode_utf8(text));
}

/// Builds the frame for `payload`. A payload longer than [`MSG_SIZE`] loses
/// its tail; no error is reported for that.
pub fn encode(payload: &[u8]) -> (frame: Frame)
    ensures
        frame@ == spec_encode(payload@),
{
    let mut bytes: [u8; MSG_SIZE] = [0u8; MSG_SIZE];
    let mut i: usize = 0;
    while i < MSG_SIZE && i < payload.len()
        invariant
            i <= MSG_SIZE,
            i <= payload@.len(),
            forall|j: int| 0 <= j < i ==> bytes@[j] == payload@[j],
            forall|j: int| i <= j < MSG_SIZE ==> bytes@[j] == 0u8,
        decreases MSG_SIZE - i,
    {
        bytes[i] = payload[i];
        i = i + 1;
    }
    Frame { bytes }
}

/// Builds the frame for a text message from its UTF-8 bytes. Where those are
/// more than [`MSG_SIZE`], the cut may fall inside a character.
pub fn encode_text(text: &str) -> (frame: Frame)
    ensures
        frame@ == spec_encode(encode_utf8(text@)),
{
    encode(text.as_bytes())
}

impl Frame {
    /// Takes a frame as it was read from the wire. Anything but exactly
    /// [`MSG_SIZE`] bytes is no frame.
    pub fn from_bytes(bytes: &[u8]) -> (res: Option<Frame>)
        ensures
            res is Some <==> bytes@.len() == MSG_SIZE,
            res matches Some(frame) ==> frame@ == bytes@,
    {
        if bytes.len() != MSG_SIZE {
            return None;
        }
        let mut copy: [u8; MSG_SIZE] = [0u8; MSG_SIZE];
        let mut i: usize = 0;
        while i < MSG_SIZE
            invariant
                i <= MSG_SIZE,
                bytes@.len() == MSG_SIZE,
                forall|j: int| 0 <= j < i ==> copy@[j] == bytes@[j],
            decreases MSG_SIZE - i,
        {
            copy[i] = bytes[i];
            i = i + 1;
        }
        Some(Frame { bytes: copy })
    }

    /// The frame's bytes, as they go on the wire.
    pub fn as_bytes(&self) -> (bytes: &[u8])
        ensures
            bytes@ == self@,
            bytes@.len() == MSG_SIZE,
    {
        self.bytes.as_slice()
    }

    /// The payload: the bytes before the first zero byte.
    pub fn payload(&self) -> (payload: Vec<u8>)
        ensures
            payload@ == spec_payload(self@),
    {
        let mut payload: Vec<u8> = Vec::new();
        let mut i: usize = 0;
        while i < MSG_SIZE && self.bytes[i] != 0u8
            invariant
                i <= MSG_SIZE,
                self.bytes@.len() == MSG_SIZE,
                payload@ == self.bytes@.take(i as int),
                forall|j: int| 0 <= j < i ==> self.bytes@[j] != 0u8,
            decreases MSG_SIZE - i,
        {
            payload.push(self.bytes[i]);
            i = i + 1;
        }
        proof {
            lemma_payload_len_is(self@, i as int);
        }
        payload
    }
}

/// Reads the text message out of a frame: the payload as UTF-8. A payload
/// that is not valid UTF-8 is refused.
pub fn decode(frame: &Frame) -> (res: Result<String, DecodeError>)
    ensures
        match spec_decode(frame@) {
            Ok(text) => res matches Ok(s) && s@ == text,
            Err(e) => res == Err::<String, DecodeError>(e),
        },
{
    match String::from_utf8(frame.payload()) {
        Ok(s) => {
            proof {
                encode_utf8_decode_utf8(s@);
            }
            Ok(s)
        },
        Err(_) => Err(DecodeError::InvalidEncoding),
    }
}

} // verus!
