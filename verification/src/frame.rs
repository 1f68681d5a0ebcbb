//! Length-prefixed framing of protocol messages.
//!
//! Every message on the wire is a little-endian `u32` byte count followed by
//! that many payload bytes. A frame carries at least one and at most
//! [`MAX_FRAME_BYTES`] payload bytes.

use vstd::prelude::*;

verus! {

/// Version of the companion wire protocol spoken by this library.
pub const PROTOCOL_VERSION: u32 = 4;

/// Largest payload, in bytes, that a single frame may carry (1 MiB).
pub const MAX_FRAME_BYTES: usize = 1048576;

/// Ways in which a frame can be refused.
#[derive(Debug, Clone, Copy, PartialEq, Eq, Structural)]
pub enum FrameError {
    /// An inbound length prefix announced zero bytes or more than the maximum.
    InvalidLength,
    /// An outbound payload was empty or larger than the maximum.
    InvalidSize,
}

/// The number that four bytes encode when read as a little-endian `u32`.
pub open spec fn le_u32_value(b: Seq<u8>) -> nat {
    b[0] as nat + 256 * (b[1] as nat) + 65536 * (b[2] as nat) + 16777216 * (b[3] as nat)
}

/// The four little-endian bytes of a number below 2^32.
pub open spec fn le_u32_bytes(n: nat) -> Seq<u8> {
    seq![
        (n % 256) as u8,
        ((n / 256) % 256) as u8,
        ((n / 65536) % 256) as u8,
        ((n / 16777216) % 256) as u8,
    ]
}

/// A payload length that a frame may announce.
pub open spec fn valid_frame_length(n: int) -> bool {
    1 <= n <= MAX_FRAME_BYTES
}

/// The bytes of the frame that carries `payload`.
pub open spec fn spec_frame(payload: Seq<u8>) -> Seq<u8> {
    le_u32_bytes(payload.len()) + payload
}

impl FrameError {
    /// The text that describes the error.
    pub fn message(&self) -> (s: String)
        ensures
            *self is InvalidLength ==> s@ == "invalid frame length"@,
            *self is InvalidSize ==> s@ == "outbound frame has an invalid size"@,
    {
        match self {
            FrameError::InvalidLength => String::from_str("invalid frame length"),
            FrameError::InvalidSize => String::from_str("outbound frame has an invalid size"),
        }
    }
}

/// Reads the payload length announced by a frame's four-byte prefix.
///
/// The length is accepted when it lies in `1..=MAX_FRAME_BYTES`.
pub fn frame_length(prefix: [u8; 4]) -> (r: Result<usize, FrameError>)
    ensures
        match r {
            Ok(n) => n == le_u32_value(prefix@) && valid_frame_length(n as int),
            Err(e) => e is InvalidLength && !valid_frame_length(le_u32_value(prefix@) as int),
        },
{
    let value: u64 = prefix[0] as u64 + 256 * (prefix[1] as u64) + 65536 * (prefix[2] as u64)
        + 16777216 * (prefix[3] as u64);
    if value == 0 || value > MAX_FRAME_BYTES as u64 {
        Err(FrameError::InvalidLength)
    } else {
        Ok(value as usize)
    }
}

/// Frames an outbound payload: its little-endian length followed by its bytes.
///
/// An empty payload, or one larger than `MAX_FRAME_BYTES`, is refused.
pub fn encode_frame(payload: &[u8]) -> (r: Result<Vec<u8>, FrameError>)
    ensures
        match r {
            Ok(bytes) => valid_frame_length(payload@.len() as int) && bytes@ == spec_frame(payload@),
            Err(e) => e is InvalidSize && !valid_frame_length(payload@.len() as int),
        },
{
    let n: usize = payload.len();
    if n == 0 || n > MAX_FRAME_BYTES {
        return Err(FrameError::InvalidSize);
    }
    let mut out: Vec<u8> = Vec::new();
    out.push((n % 256) as u8);
    out.push(((n / 256) % 256) as u8);
    out.push(((n / 65536) % 256) as u8);
    out.push(((n / 16777216) % 256) as u8);
    let ghost prefix = out@;
    assert(prefix == le_u32_bytes(n as nat));
    let mut i: usize = 0;
    while i < n
        invariant
            n == payload@.len(),
            i <= n,
            prefix == le_u32_bytes(n as nat),
            out@ == prefix + payload@.take(i as int),
        decreases n - i,
    {
        out.push(payload[i]);
        i = i + 1;
        assert(payload@.take(i as int) == payload@.take(i - 1 as int).push(payload@[i - 1]));
    }
    assert(payload@.take(n as int) == payload@);
    Ok(out)
}

/// Reading the little-endian bytes of a number below 2^32 gives the number back.
pub proof fn lemma_length_bytes_roundtrip(n: nat)
    requires
        n < 4294967296,
    ensures
        le_u32_bytes(n).len() == 4,
        le_u32_value(le_u32_bytes(n)) == n,
{
    let b = le_u32_bytes(n);
    let q1 = n / 256;
    let q2 = n / 65536;
    let q3 = n / 16777216;
    assert(n == 256 * q1 + n % 256 && 0 <= n % 256 < 256) by (nonlinear_arith)
        requires q1 == n / 256;
    assert(q1 == 256 * q2 + q1 % 256 && 0 <= q1 % 256 < 256) by (nonlinear_arith)
        requires q1 == n / 256, q2 == n / 65536;
    assert(q2 == 256 * q3 + q2 % 256 && 0 <= q2 % 256 < 256) by (nonlinear_arith)
        requires q2 == n / 65536, q3 == n / 16777216;
    assert(q3 < 256 && q3 % 256 == q3) by (nonlinear_arith)
        requires q3 == n / 16777216, n < 4294967296;
    assert(b[0] as nat == n % 256);
    assert(b[1] as nat == q1 % 256);
    assert(b[2] as nat == q2 % 256);
    assert(b[3] as nat == q3 % 256);
}

/// Writing the number that four bytes encode gives the same four bytes back.
pub proof fn lemma_prefix_roundtrip(b: Seq<u8>)
    requires
        b.len() == 4,
    ensures
        le_u32_value(b) < 4294967296,
        le_u32_bytes(le_u32_value(b)) == b,
{
    let n = le_u32_value(b);
    let b0 = b[0] as nat;
    let b1 = b[1] as nat;
    let b2 = b[2] as nat;
    let b3 = b[3] as nat;
    assert(n % 256 == b0 && n / 256 == b1 + 256 * b2 + 65536 * b3) by (nonlinear_arith)
        requires n == b0 + 256 * b1 + 65536 * b2 + 16777216 * b3, b0 < 256, b1 < 256, b2 < 256,
            b3 < 256;
    assert(n / 65536 == b2 + 256 * b3 && (n / 256) % 256 == b1) by (nonlinear_arith)
        requires n == b0 + 256 * b1 + 65536 * b2 + 16777216 * b3, b0 < 256, b1 < 256, b2 < 256,
            b3 < 256;
    assert(n / 16777216 == b3 && (n / 65536) % 256 == b2 && b3 % 256 == b3) by (nonlinear_arith)
        requires n == b0 + 256 * b1 + 65536 * b2 + 16777216 * b3, b0 < 256, b1 < 256, b2 < 256,
            b3 < 256;
    assert(le_u32_bytes(n) =~= b);
}

/// A framed payload announces its own length, and the bytes after the prefix
/// are exactly the payload.
pub proof fn lemma_frame_roundtrip(payload: Seq<u8>)
    requires
        valid_frame_length(payload.len() as int),
    ensures
        spec_frame(payload).len() == 4 + payload.len(),
        le_u32_value(spec_frame(payload).take(4)) == payload.len(),
        valid_frame_length(le_u32_value(spec_frame(payload).take(4)) as int),
        spec_frame(payload).skip(4) == payload,
{
    lemma_length_bytes_roundtrip(payload.len());
    assert(spec_frame(payload).take(4) =~= le_u32_bytes(payload.len()));
    assert(spec_frame(payload).skip(4) =~= payload);
}

} // verus!
