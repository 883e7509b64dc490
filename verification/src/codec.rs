//! Length-prefixed framing.
//!
//! Frame layout: `[u32 length little-endian][payload]`.
//!
//! A `max_frame` guard (default 4 MiB) rejects absurd lengths before
//! allocating.
use vstd::prelude::*;

verus! {

/// Default upper bound on a single frame's payload.
pub const DEFAULT_MAX_FRAME: usize = 4 * 1024 * 1024;

/// The bytes of a frame header.
pub const FRAME_HEADER_LEN: usize = 4;

#[verifier::external_type_specification]
#[verifier::external_body]
pub struct ExIoError(std::io::Error);

#[verifier::external_type_specification]
#[verifier::external_body]
pub struct ExPostcardError(postcard::Error);

/// Errors from framing, encoding, or the underlying stream.
#[derive(Debug)]
pub enum CodecError {
    /// The stream failed, or closed in the middle of a frame.
    Io(std::io::Error),
    /// The peer closed the connection at a frame boundary.
    Closed,
    /// A frame's payload is larger than the limit.
    FrameTooLarge { size: usize, max: usize },
    /// The message could not be encoded.
    Encode(postcard::Error),
    /// The payload is not a valid message.
    Decode(postcard::Error),
}

/// The header announcing a payload of `len` bytes: the length, truncated to
/// 32 bits, little-endian.
pub open spec fn frame_header(len: nat) -> Seq<u8> {
    vstd::bytes::spec_u32_to_le_bytes(len as u32)
}

/// The length a header announces.
pub open spec fn announced_len(header: Seq<u8>) -> nat {
    vstd::bytes::spec_u32_from_le_bytes(header) as nat
}

/// A whole frame: header, then payload.
pub open spec fn frame_of(payload: Seq<u8>) -> Seq<u8> {
    frame_header(payload.len()) + payload
}

/// A typed, framed message channel wrapping a byte stream.
pub struct MessageStream<S> {
    inner: S,
    max_frame: usize,
    /// Reused across receives to avoid reallocating.
    scratch: Vec<u8>,
}

impl<S> MessageStream<S> {
    /// The largest payload accepted, in bytes.
    pub closed spec fn frame_limit(&self) -> usize {
        self.max_frame
    }

    /// The wrapped stream.
    pub closed spec fn stream(&self) -> S {
        self.inner
    }

    pub fn new(inner: S) -> (ms: MessageStream<S>)
        ensures
            ms.frame_limit() == DEFAULT_MAX_FRAME,
            ms.stream() == inner,
    {
        MessageStream { inner, max_frame: DEFAULT_MAX_FRAME, scratch: Vec::new() }
    }

    /// Override the maximum accepted frame size.
    pub fn with_max_frame(self, max_frame: usize) -> (ms: MessageStream<S>)
        ensures
            ms.frame_limit() == max_frame,
            ms.stream() == self.stream(),
    {
        let mut s = self;
        s.max_frame = max_frame;
        s
    }

    /// Consume the wrapper and return the underlying stream.
    pub fn into_inner(self) -> (s: S)
        ensures
            s == self.stream(),
    {
        self.inner
    }

    pub fn get_ref(&self) -> (s: &S)
        ensures
            *s == self.stream(),
    {
        &self.inner
    }

    pub fn get_mut(&mut self) -> (s: &mut S)
        ensures
            *s == old(self).stream(),
            final(self).stream() == *final(s),
            final(self).frame_limit() == old(self).frame_limit(),
    {
        &mut self.inner
    }

    /// The stream, and the receive buffer cleared and zero-filled to `len`
    /// bytes, ready for one payload to be read into it.
    pub fn read_target(&mut self, len: usize) -> (parts: (&mut S, &mut Vec<u8>))
        ensures
            *parts.0 == old(self).stream(),
            parts.1@ == Seq::new(len as nat, |i: int| 0u8),
            final(self).stream() == *final(parts.0),
            final(self).frame_limit() == old(self).frame_limit(),
    {
        self.scratch.clear();
        self.scratch.resize(len, 0);
        assert(self.scratch@ =~= Seq::new(len as nat, |i: int| 0u8));
        (&mut self.inner, &mut self.scratch)
    }

    /// The bytes last read into the receive buffer.
    pub fn received(&self) -> (b: &[u8])
        ensures
            b@ == self.last_read(),
    {
        self.scratch.as_slice()
    }

    /// The receive buffer's contents.
    pub closed spec fn last_read(&self) -> Seq<u8> {
        self.scratch@
    }

    /// The largest payload accepted, in bytes.
    pub fn max_frame(&self) -> (m: usize)
        ensures
            m == self.frame_limit(),
    {
        self.max_frame
    }

    /// The frame that carries `payload`, or `FrameTooLarge` when the payload
    /// is over the limit.
    pub fn frame(&self, payload: &[u8]) -> (r: Result<Vec<u8>, CodecError>)
        ensures
            payload@.len() > self.frame_limit() <==> r is Err,
            r matches Ok(f) ==> f@ == frame_of(payload@),
            r matches Err(e) ==> e == (CodecError::FrameTooLarge {
                size: payload@.len() as usize,
                max: self.frame_limit(),
            }),
    {
        if payload.len() > self.max_frame {
            return Err(CodecError::FrameTooLarge { size: payload.len(), max: self.max_frame });
        }
        let mut out = vstd::bytes::u32_to_le_bytes(payload.len() as u32);
        let mut body = vstd::slice::slice_to_vec(payload);
        out.append(&mut body);
        Ok(out)
    }

    /// The payload length a received header announces, or `FrameTooLarge`
    /// when it is over the limit.
    pub fn payload_len(&self, header: &[u8; 4]) -> (r: Result<usize, CodecError>)
        ensures
            announced_len(header@) > self.frame_limit() <==> r is Err,
            r matches Ok(n) ==> n == announced_len(header@),
            r matches Err(e) ==> e == (CodecError::FrameTooLarge {
                size: announced_len(header@) as usize,
                max: self.frame_limit(),
            }),
    {
        let len = vstd::bytes::u32_from_le_bytes(header.as_slice()) as usize;
        if len > self.max_frame {
            return Err(CodecError::FrameTooLarge { size: len, max: self.max_frame });
        }
        Ok(len)
    }
}

/// Whether an I/O error says the stream ran out: its `kind()` is
/// `ErrorKind::UnexpectedEof`. The kind is fixed when the error is made.
pub uninterp spec fn io_error_is_eof(e: std::io::Error) -> bool;

/// Whether a failed read stopped because the stream ran out
/// (`std::io::Error::kind` is `ErrorKind::UnexpectedEof`).
#[verifier::external_body]
fn is_unexpected_eof(e: &std::io::Error) -> (b: bool)
    ensures
        b == io_error_is_eof(*e),
{
    e.kind() == std::io::ErrorKind::UnexpectedEof
}

/// `std::io::Error::new(ErrorKind::UnexpectedEof, "connection closed
/// mid-frame")`: the error reported for a frame cut short. Its kind is the
/// one it was made with.
#[verifier::external_body]
fn truncated_frame_error() -> (e: std::io::Error)
    ensures
        io_error_is_eof(e),
{
    std::io::Error::new(std::io::ErrorKind::UnexpectedEof, "connection closed mid-frame")
}

/// The error for a failed read of a frame header after `got` of its bytes
/// arrived. The stream ending before any byte of a frame, on a frame
/// boundary, is a clean close; ending after part of the header is a frame cut
/// short, an end-of-stream I/O error; any other failure is passed on.
pub fn header_read_error(e: std::io::Error, at_eof: bool, got: usize) -> (r: CodecError)
    ensures
        at_eof && got == 0 ==> r is Closed,
        at_eof && got > 0 ==> (r matches CodecError::Io(x) && io_error_is_eof(x)),
        !at_eof ==> r == CodecError::Io(e),
{
    if at_eof {
        if got == 0 {
            CodecError::Closed
        } else {
            CodecError::Io(truncated_frame_error())
        }
    } else {
        CodecError::Io(e)
    }
}

/// The error for a failed read of a frame payload: the stream ending partway
/// through a frame is an end-of-stream I/O error, never a clean close; any
/// other failure is passed on.
pub fn payload_read_error(e: std::io::Error, at_eof: bool) -> (r: CodecError)
    ensures
        at_eof ==> (r matches CodecError::Io(x) && io_error_is_eof(x)),
        !at_eof ==> r == CodecError::Io(e),
{
    if at_eof {
        CodecError::Io(truncated_frame_error())
    } else {
        CodecError::Io(e)
    }
}

/// Classify a failed read of a frame header after `got` of its bytes
/// arrived: running out before the frame began is a clean close, running
/// out inside the header is a frame cut short, and any other failure is the
/// stream error itself.
pub fn read_header_failed(e: std::io::Error, got: usize) -> (r: CodecError)
    ensures
        io_error_is_eof(e) && got == 0 ==> r is Closed,
        io_error_is_eof(e) && got > 0 ==> (r matches CodecError::Io(x) && io_error_is_eof(x)),
        !io_error_is_eof(e) ==> r == CodecError::Io(e),
{
    let at_eof = is_unexpected_eof(&e);
    header_read_error(e, at_eof, got)
}

/// Classify a failed read of a frame payload: running out is a frame cut
/// short, never a close, and any other failure is the stream error itself.
pub fn read_payload_failed(e: std::io::Error) -> (r: CodecError)
    ensures
        io_error_is_eof(e) ==> (r matches CodecError::Io(x) && io_error_is_eof(x)),
        !io_error_is_eof(e) ==> r == CodecError::Io(e),
{
    let at_eof = is_unexpected_eof(&e);
    payload_read_error(e, at_eof)
}

/// A frame for a payload that fits the limit announces exactly the payload's
/// length, and the payload follows the header unchanged.
pub proof fn lemma_frame_roundtrip(payload: Seq<u8>)
    requires
        payload.len() <= u32::MAX,
    ensures
        frame_of(payload).len() == FRAME_HEADER_LEN + payload.len(),
        announced_len(frame_of(payload).take(FRAME_HEADER_LEN as int)) == payload.len(),
        frame_of(payload).skip(FRAME_HEADER_LEN as int) == payload,
{
    vstd::bytes::lemma_auto_spec_u32_to_from_le_bytes();
    let h = frame_header(payload.len());
    assert(frame_of(payload).take(4) =~= h);
    assert(frame_of(payload).skip(4) =~= payload);
}

} // verus!
