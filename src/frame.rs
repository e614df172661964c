//! Length-prefixed frames of the stdio transport: a four-byte little-endian
//! length followed by that many bytes of JSON text.

use vstd::prelude::*;

verus! {

/// The largest payload a frame may carry (10 MiB).
pub const MAX_FRAME: usize = 10485760;

/// Why bytes do not hold a frame.
#[derive(Debug, Clone, Copy, PartialEq, Eq, Structural)]
pub enum FrameError {
    /// The bytes end before the header or the payload does.
    Truncated,
    /// The header announces more than `MAX_FRAME` bytes.
    TooLarge,
}

/// The value of a little-endian four-byte header.
pub open spec fn le32(b: Seq<u8>) -> nat {
    b[0] as nat + 256 * (b[1] as nat + 256 * (b[2] as nat + 256 * (b[3] as nat)))
}

/// The header for a payload of `n` bytes.
pub open spec fn header_spec(n: nat) -> Seq<u8> {
    seq![
        (n % 256) as u8,
        ((n / 256) % 256) as u8,
        ((n / 65536) % 256) as u8,
        ((n / 16777216) % 256) as u8,
    ]
}

/// The frame that carries `payload`.
pub open spec fn encode_spec(payload: Seq<u8>) -> Seq<u8> {
    header_spec(payload.len()) + payload
}

/// What the start of `bytes` holds: the payload of one frame and the number
/// of bytes that frame takes, or why there is none. Bytes after the frame
/// belong to the next one.
pub open spec fn decode_spec(bytes: Seq<u8>) -> Result<(Seq<u8>, nat), FrameError> {
    if bytes.len() < 4 {
        Err(FrameError::Truncated)
    } else if le32(bytes.subrange(0, 4)) > MAX_FRAME {
        Err(FrameError::TooLarge)
    } else if bytes.len() < 4 + le32(bytes.subrange(0, 4)) {
        Err(FrameError::Truncated)
    } else {
        Ok((bytes.subrange(4, (4 + le32(bytes.subrange(0, 4))) as int), 4 + le32(bytes.subrange(0, 4))))
    }
}

proof fn lemma_header(n: nat)
    requires
        n < 4294967296,
    ensures
        le32(header_spec(n)) == n,
        header_spec(n).len() == 4,
{
    let h = header_spec(n);
    assert(n == n % 256 + 256 * (n / 256));
    assert(n / 256 == (n / 256) % 256 + 256 * (n / 65536));
    assert(n / 65536 == (n / 65536) % 256 + 256 * (n / 16777216));
    assert(n / 16777216 < 256);
    assert(h[0] as nat == n % 256);
    assert(h[1] as nat == (n / 256) % 256);
    assert(h[2] as nat == (n / 65536) % 256);
    assert(h[3] as nat == n / 16777216);
}

proof fn lemma_header_of_le32(b: Seq<u8>)
    requires
        b.len() == 4,
    ensures
        header_spec(le32(b)) == b,
{
    let n = le32(b);
    assert(n % 256 == b[0] as nat);
    assert(n / 256 == b[1] as nat + 256 * (b[2] as nat + 256 * (b[3] as nat)));
    assert((n / 256) % 256 == b[1] as nat);
    assert(n / 65536 == b[2] as nat + 256 * (b[3] as nat));
    assert((n / 65536) % 256 == b[2] as nat);
    assert(n / 16777216 == b[3] as nat);
    assert(header_spec(n) =~= b);
}

/// The frame that carries `payload`.
pub fn encode(payload: &Vec<u8>) -> (r: Vec<u8>)
    requires
        payload@.len() <= MAX_FRAME,
    ensures
        r@ == encode_spec(payload@),
{
    let n = payload.len();
    let mut out: Vec<u8> = Vec::new();
    out.push((n % 256) as u8);
    out.push(((n / 256) % 256) as u8);
    out.push(((n / 65536) % 256) as u8);
    out.push(((n / 16777216) % 256) as u8);
    assert(out@ =~= header_spec(n as nat));
    let mut i: usize = 0;
    while i < n
        invariant
            n == payload@.len(),
            i <= n,
            out@ == header_spec(n as nat) + payload@.subrange(0, i as int),
        decreases n - i,
    {
        out.push(payload[i]);
        assert(payload@.subrange(0, i as int + 1) =~= payload@.subrange(0, i as int).push(payload@[i as int]));
        i = i + 1;
    }
    assert(payload@.subrange(0, n as int) =~= payload@);
    out
}

/// The payload length a header announces, or `TooLarge` past `MAX_FRAME`.
pub fn frame_length(header: &[u8]) -> (r: Result<usize, FrameError>)
    requires
        header@.len() == 4,
    ensures
        match r {
            Ok(n) => n == le32(header@) && n <= MAX_FRAME,
            Err(e) => e == FrameError::TooLarge && le32(header@) > MAX_FRAME,
        },
{
    let n: u64 = header[0] as u64 + 256 * (header[1] as u64 + 256 * (header[2] as u64 + 256 * (header[3] as u64)));
    if n > MAX_FRAME as u64 {
        Err(FrameError::TooLarge)
    } else {
        Ok(n as usize)
    }
}

/// Reads one frame from the start of `bytes`: its payload and the number of
/// bytes it takes.
pub fn decode(bytes: &[u8]) -> (r: Result<(Vec<u8>, usize), FrameError>)
    ensures
        match r {
            Ok((p, used)) => decode_spec(bytes@) == Ok::<(Seq<u8>, nat), FrameError>((p@, used as nat)),
            Err(e) => decode_spec(bytes@) == Err::<(Seq<u8>, nat), FrameError>(e),
        },
{
    if bytes.len() < 4 {
        return Err(FrameError::Truncated);
    }
    let header = [bytes[0], bytes[1], bytes[2], bytes[3]];
    assert(header@ =~= bytes@.subrange(0, 4));
    let n = match frame_length(&header) {
        Ok(n) => n,
        Err(e) => return Err(e),
    };
    if bytes.len() - 4 < n {
        return Err(FrameError::Truncated);
    }
    let mut out: Vec<u8> = Vec::new();
    let mut i: usize = 0;
    assert(bytes@.len() == bytes.len());
    while i < n
        invariant
            bytes@.len() >= 4,
            n <= bytes@.len() - 4,
            bytes@.len() <= usize::MAX,
            i <= n,
            out@ == bytes@.subrange(4, 4 + i),
        decreases n - i,
    {
        out.push(bytes[4 + i]);
        assert(bytes@.subrange(4, 4 + i + 1) =~= bytes@.subrange(4, 4 + i).push(bytes@[4 + i]));
        i = i + 1;
    }
    Ok((out, 4 + n))
}

/// Framing round trip: a payload within the size bound comes back unchanged
/// from its frame, and every byte string that holds exactly one valid frame
/// is the encoding of the payload it decodes to.
pub proof fn frame_round_trip(payload: Seq<u8>, f: Seq<u8>)
    requires
        payload.len() <= MAX_FRAME,
    ensures
        decode_spec(encode_spec(payload)) == Ok::<(Seq<u8>, nat), FrameError>((payload, payload.len() + 4)),
        decode_spec(f) is Ok && decode_spec(f)->Ok_0.1 == f.len() ==> encode_spec(
            decode_spec(f)->Ok_0.0,
        ) == f,
{
    lemma_header(payload.len());
    let e = encode_spec(payload);
    assert(e.subrange(0, 4) =~= header_spec(payload.len()));
    assert(e.subrange(4, (4 + payload.len()) as int) =~= payload);
    if decode_spec(f) is Ok && decode_spec(f)->Ok_0.1 == f.len() {
        let p = decode_spec(f)->Ok_0.0;
        let h = f.subrange(0, 4);
        lemma_header_of_le32(h);
        assert(p.len() == le32(h));
        assert(encode_spec(p) =~= f);
    }
}

} // verus!
