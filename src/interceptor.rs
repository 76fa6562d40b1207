//! A transparent observer on the inbound control-packet path: every hook
//! passes its capability through, and the reader decorator hands back exactly
//! what the wrapped reader returned.
use vstd::prelude::*;

verus! {

/// Builds `TwccInterceptor`s for the transport's interceptor chain.
#[derive(Debug, Clone, Copy, PartialEq, Eq, Structural)]
pub struct TwccInterceptorBuilder {}

impl TwccInterceptorBuilder {
    /// A fresh interceptor; building never fails.
    pub fn build(&self, id: &str) -> (r: Result<TwccInterceptor, InterceptorError>)
        ensures
            r == Ok::<TwccInterceptor, InterceptorError>(TwccInterceptor {}),
    {
        Ok(TwccInterceptor {})
    }
}

/// Errors of the interceptor chain.
#[derive(Debug, Clone, Copy, PartialEq, Eq, Structural)]
pub enum InterceptorError {
    /// The wrapped reader or writer failed.
    Io,
    /// Bytes could not be read as a control packet.
    Malformed,
}

/// The interceptor: it decorates the control-packet reader and passes every
/// other capability through.
#[derive(Debug, Clone, Copy, PartialEq, Eq, Structural)]
pub struct TwccInterceptor {}

impl TwccInterceptor {
    pub fn builder() -> (r: TwccInterceptorBuilder)
        ensures
            r == (TwccInterceptorBuilder {}),
    {
        TwccInterceptorBuilder {}
    }

    /// Wraps the control-packet reader in the observing decorator.
    pub fn bind_rtcp_reader<R>(&self, reader: R) -> (r: TwccInterceptorRtcpReader<R>)
        ensures
            r.parent_reader == reader,
    {
        TwccInterceptorRtcpReader { parent_reader: reader }
    }

    /// The control-packet writer, unchanged.
    pub fn bind_rtcp_writer<W>(&self, writer: W) -> (r: W)
        ensures
            r == writer,
    {
        writer
    }

    /// The local stream's writer, unchanged.
    pub fn bind_local_stream<I, W>(&self, info: &I, writer: W) -> (r: W)
        ensures
            r == writer,
    {
        writer
    }

    /// Nothing to release for a local stream.
    pub fn unbind_local_stream<I>(&self, info: &I) {
    }

    /// The remote stream's reader, unchanged.
    pub fn bind_remote_stream<I, R>(&self, info: &I, reader: R) -> (r: R)
        ensures
            r == reader,
    {
        reader
    }

    /// Nothing to release for a remote stream.
    pub fn unbind_remote_stream<I>(&self, info: &I) {
    }

    /// Closing holds no resource, so it always succeeds.
    pub fn close(&self) -> (r: Result<(), InterceptorError>)
        ensures
            r is Ok,
    {
        Ok(())
    }
}

/// Decorator around the transport's inbound control-packet reader.
pub struct TwccInterceptorRtcpReader<R> {
    pub parent_reader: R,
}

impl<R> TwccInterceptorRtcpReader<R> {
    /// The wrapped reader.
    pub fn parent(&self) -> (r: &R)
        ensures
            r == &self.parent_reader,
    {
        &self.parent_reader
    }

    /// What the decorator returns for what the wrapped reader returned: the
    /// byte count and attributes exactly as they came, or the error unchanged.
    /// Observing the bytes (`holds_rtcp`) has no bearing on it.
    pub fn relay<A, E>(&self, parent_result: Result<(usize, A), E>) -> (r: Result<(usize, A), E>)
        ensures
            r == parent_result,
    {
        match parent_result {
            Ok((n, attributes)) => Ok((n, attributes)),
            Err(e) => Err(e),
        }
    }
}

/// Decorator around a remote stream's media-packet reader.
pub struct TwccInterceptorRtpReader<R> {
    pub parent_reader: R,
}

impl<R> TwccInterceptorRtpReader<R> {
    /// Wraps a media-packet reader.
    pub fn new(reader: R) -> (r: Self)
        ensures
            r.parent_reader == reader,
    {
        TwccInterceptorRtpReader { parent_reader: reader }
    }

    /// What the decorator returns for what the wrapped reader returned: it
    /// exactly.
    pub fn relay<A, E>(&self, parent_result: Result<(usize, A), E>) -> (r: Result<(usize, A), E>)
        ensures
            r == parent_result,
    {
        match parent_result {
            Ok((n, attributes)) => Ok((n, attributes)),
            Err(e) => Err(e),
        }
    }
}

/// Whether `webrtc::rtcp::packet::unmarshal` reads one or more control packets
/// from the bytes.
pub uninterp spec fn rtcp_parses(b: Seq<u8>) -> bool;

/// Bytes handed to the packet parser are fewer than this, so that no length
/// field of a frame that fits overflows the parser's 16-bit arithmetic.
pub const MAX_PARSED_LEN: usize = 65540;

/// Status count above which the parser's 16-bit count of processed statuses
/// can overflow: a status vector chunk adds up to 14 statuses past the last
/// one below the announced count.
pub const MAX_SAFE_STATUS_COUNT: u16 = 65521;

/// Total length, header included, of the frame whose header starts at `i`.
pub open spec fn frame_len(b: Seq<u8>, i: int) -> int {
    4 + 4 * (b[i + 2] as int * 256 + b[i + 3] as int)
}

/// Whether the frame at `i` is of a kind that the parser is not handed: a
/// generic NACK too short for its two sources, a full intra request whose
/// body is not whole entries, a transport-wide feedback announcing more
/// statuses than the parser can count, and the two kinds left unparsed here
/// (receiver estimated maximum bitrate, extended report).
pub open spec fn unparsed_frame_at(b: Seq<u8>, i: int) -> bool {
    let pt = b[i + 1];
    let fmt = b[i] % 32;
    let len = frame_len(b, i);
    (pt == 205 && fmt == 1 && len < 12)
        || (pt == 206 && fmt == 4 && (len < 12 || (len - 12) % 8 != 0))
        || (pt == 205 && fmt == 15 && len >= 16
            && b[i + 14] as int * 256 + b[i + 15] as int > MAX_SAFE_STATUS_COUNT as int)
        || (pt == 206 && fmt == 15)
        || pt == 207
}

/// Whether a frame of a kind the parser is not handed lies among the frames
/// from `i` on, each frame starting where the one before ends, as the parser
/// walks them, until a header or a frame no longer fits.
pub open spec fn unparsed_frame_from(b: Seq<u8>, i: int) -> bool
    decreases b.len() - i,
{
    if i < 0 || i + 4 > b.len() || i + frame_len(b, i) > b.len() {
        false
    } else {
        unparsed_frame_at(b, i) || unparsed_frame_from(b, i + frame_len(b, i))
    }
}

/// Whether the parser may be handed the bytes.
pub open spec fn parseable(b: Seq<u8>) -> bool {
    b.len() < MAX_PARSED_LEN && !unparsed_frame_from(b, 0)
}

/// Relies on `webrtc::rtcp::packet::unmarshal`: whether the bytes hold one or
/// more well-formed control packets; no bytes hold none. The parser walks the
/// frames by their length fields and panics on some frames (16-bit overflow
/// on long lengths or large status counts, reads past a short frame), which
/// `parseable` excludes.
#[verifier::external_body]
fn parses_as_rtcp(b: &[u8]) -> (r: bool)
    requires
        parseable(b@),
    ensures
        r == rtcp_parses(b@),
        b@.len() == 0 ==> !r,
{
    let mut raw = b;
    webrtc::rtcp::packet::unmarshal(&mut raw).is_ok()
}

/// Whether the bytes may be handed to the packet parser.
pub fn is_parseable(b: &[u8]) -> (r: bool)
    ensures
        r == parseable(b@),
{
    let len = b.len();
    if len >= MAX_PARSED_LEN {
        return false;
    }
    let mut i: usize = 0;
    while i + 4 <= len
        invariant
            len == b@.len(),
            len < MAX_PARSED_LEN,
            i <= len,
            unparsed_frame_from(b@, 0) == unparsed_frame_from(b@, i as int),
        decreases len - i,
    {
        let words: usize = b[i + 2] as usize * 256 + b[i + 3] as usize;
        let flen: usize = 4 + 4 * words;
        assert(flen == frame_len(b@, i as int));
        if flen > len - i {
            return true;
        }
        let pt = b[i + 1];
        let fmt = b[i] % 32;
        let mut bad = (pt == 205 && fmt == 1 && flen < 12)
            || (pt == 206 && fmt == 4 && (flen < 12 || (flen - 12) % 8 != 0))
            || (pt == 206 && fmt == 15)
            || pt == 207;
        if pt == 205 && fmt == 15 && flen >= 16 {
            let count: usize = b[i + 14] as usize * 256 + b[i + 15] as usize;
            if count > MAX_SAFE_STATUS_COUNT as usize {
                bad = true;
            }
        }
        assert(bad == unparsed_frame_at(b@, i as int));
        if bad {
            return false;
        }
        i = i + flen;
    }
    true
}

/// Whether the first `n` bytes of `buf`, as a read filled them, hold well-formed
/// control packets. Bytes that the parser may not be handed are not parsed,
/// and count as not well-formed.
pub fn holds_rtcp(buf: &[u8], n: usize) -> (r: bool)
    ensures
        r == (n <= buf@.len() && parseable(buf@.subrange(0, n as int))
            && rtcp_parses(buf@.subrange(0, n as int))),
{
    match filled_part(buf, n) {
        Some(bytes) => {
            if is_parseable(bytes) {
                parses_as_rtcp(bytes)
            } else {
                false
            }
        },
        None => false,
    }
}

/// The part of `buf` that a read of `n` bytes filled, as handed to the packet
/// parser; `None` where the reader reported more bytes than `buf` holds.
pub fn filled_part(buf: &[u8], n: usize) -> (r: Option<&[u8]>)
    ensures
        n <= buf@.len() ==> r is Some && r->0@ == buf@.subrange(0, n as int),
        n > buf@.len() ==> r is None,
{
    if n <= buf.len() {
        Some(&buf[0..n])
    } else {
        None
    }
}

} // verus!
