use vstd::prelude::*;

verus! {

/// The framed TCP adapter prepends each payload with its length as a
/// little-endian 4-byte prefix.
pub const FRAME_HEADER_LEN: usize = 4;

/// The little-endian bytes of a 32-bit length, lowest byte first.
pub open spec fn spec_le_bytes(n: u32) -> Seq<u8> {
    seq![
        (n & 0xff) as u8,
        ((n >> 8) & 0xff) as u8,
        ((n >> 16) & 0xff) as u8,
        ((n >> 24) & 0xff) as u8,
    ]
}

/// The value read back from four little-endian bytes.
pub open spec fn spec_le_value(b0: u8, b1: u8, b2: u8, b3: u8) -> int {
    b0 + b1 * 0x100 + b2 * 0x10000 + b3 * 0x1000000
}

/// One encoded frame: the length prefix followed by the payload.
pub open spec fn spec_encode(p: Seq<u8>) -> Seq<u8>
    recommends
        p.len() <= u32::MAX,
{
    spec_le_bytes(p.len() as u32) + p
}

/// Splits one complete frame off the front of a byte buffer: the payload
/// and the bytes after it, or nothing when the buffer does not yet hold a
/// whole frame.
pub open spec fn spec_decode_step(b: Seq<u8>) -> Option<(Seq<u8>, Seq<u8>)> {
    if b.len() >= 4 {
        let n = spec_le_value(b[0], b[1], b[2], b[3]);
        if b.len() - 4 >= n {
            Some((b.subrange(4, 4 + n), b.skip(4 + n)))
        } else {
            None
        }
    } else {
        None
    }
}

/// Every complete frame at the front of the buffer, in order.
pub open spec fn spec_decode_all(b: Seq<u8>) -> Seq<Seq<u8>>
    decreases b.len(),
{
    if b.len() >= 4 {
        let n = spec_le_value(b[0], b[1], b[2], b[3]);
        if b.len() - 4 >= n {
            seq![b.subrange(4, 4 + n)] + spec_decode_all(b.skip(4 + n))
        } else {
            seq![]
        }
    } else {
        seq![]
    }
}

/// The concatenation of the encodings of a sequence of payloads.
pub open spec fn spec_encode_all(ps: Seq<Seq<u8>>) -> Seq<u8>
    decreases ps.len(),
{
    if ps.len() == 0 {
        seq![]
    } else {
        spec_encode(ps[0]) + spec_encode_all(ps.drop_first())
    }
}

/// Reading the little-endian bytes of a length back gives the length.
pub proof fn lemma_le_roundtrip(n: u32)
    ensures
        spec_le_value(
            (n & 0xff) as u8,
            ((n >> 8) & 0xff) as u8,
            ((n >> 16) & 0xff) as u8,
            ((n >> 24) & 0xff) as u8,
        ) == n,
{
    assert(n & 0xff < 0x100 && (n >> 8) & 0xff < 0x100 && (n >> 16) & 0xff < 0x100 && (n >> 24)
        & 0xff < 0x100) by (bit_vector);
    assert((n & 0xff) + ((n >> 8) & 0xff) * 0x100 + ((n >> 16) & 0xff) * 0x10000 + ((n >> 24)
        & 0xff) * 0x1000000 == n) by (bit_vector);
}

/// Round trip for one frame: decoding a buffer that starts with the
/// encoding of `p` yields exactly `p` and leaves exactly the rest.
pub proof fn lemma_frame_roundtrip(p: Seq<u8>, rest: Seq<u8>)
    requires
        p.len() <= u32::MAX,
    ensures
        spec_decode_step(spec_encode(p) + rest) == Some((p, rest)),
{
    let b = spec_encode(p) + rest;
    lemma_le_roundtrip(p.len() as u32);
    assert(b.len() == 4 + p.len() + rest.len());
    assert(spec_le_value(b[0], b[1], b[2], b[3]) == p.len());
    let n = p.len() as int;
    assert(b.subrange(4, 4 + n) =~= p);
    assert(b.skip(4 + n) =~= rest);
}

/// In-order delivery for framed transports: decoding the concatenation of
/// the encodings of `k` payloads yields exactly those `k` payloads, in the
/// order they were sent — however the bytes were split on the way.
#[verifier::rlimit(50)]
pub proof fn lemma_frames_in_order(ps: Seq<Seq<u8>>)
    requires
        forall|i: int| 0 <= i < ps.len() ==> #[trigger] ps[i].len() <= u32::MAX,
    ensures
        spec_decode_all(spec_encode_all(ps)) == ps,
    decreases ps.len(),
{
    if ps.len() == 0 {
        assert(spec_decode_all(spec_encode_all(ps)) =~= ps);
    } else {
        let head = ps[0];
        let rest = spec_encode_all(ps.drop_first());
        lemma_frame_roundtrip(head, rest);
        let b = spec_encode(head) + rest;
        let n = spec_le_value(b[0], b[1], b[2], b[3]);
        assert(b.len() - 4 >= n && b.subrange(4, 4 + n) == head && b.skip(4 + n) == rest);
        lemma_frames_in_order(ps.drop_first());
        assert(spec_decode_all(b) =~= seq![head] + ps.drop_first());
        assert(seq![head] + ps.drop_first() =~= ps);
    }
}

/// Encodes one payload for the framed TCP transport: 4-byte little-endian
/// length, then the payload bytes.
pub fn encode_frame(payload: &Vec<u8>) -> (r: Vec<u8>)
    requires
        payload@.len() <= u32::MAX,
    ensures
        r@ == spec_encode(payload@),
{
    let n = payload.len() as u32;
    let mut out: Vec<u8> = Vec::new();
    out.push((n & 0xff) as u8);
    out.push(((n >> 8) & 0xff) as u8);
    out.push(((n >> 16) & 0xff) as u8);
    out.push(((n >> 24) & 0xff) as u8);
    assert(out@ =~= spec_le_bytes(n));
    let mut i: usize = 0;
    while i < payload.len()
        invariant
            i <= payload@.len(),
            out@ == spec_le_bytes(n) + payload@.subrange(0, i as int),
        decreases payload@.len() - i,
    {
        out.push(payload[i]);
        assert(out@ =~= spec_le_bytes(n) + payload@.subrange(0, i + 1 as int));
        i = i + 1;
    }
    assert(payload@.subrange(0, payload@.len() as int) =~= payload@);
    out
}

/// Incremental decoder for the framed TCP transport. Its whole state is
/// the bytes received and not yet decoded, so frames come out the same
/// however the stream was chunked.
pub struct FramedDecoder {
    buf: Vec<u8>,
}

impl FramedDecoder {
    pub closed spec fn view(self) -> Seq<u8> {
        self.buf@
    }

    pub fn new() -> (r: FramedDecoder)
        ensures
            r@ == Seq::<u8>::empty(),
    {
        FramedDecoder { buf: Vec::new() }
    }

    /// Feeds the next chunk of the stream to the decoder.
    pub fn push_bytes(&mut self, chunk: &Vec<u8>)
        requires
            old(self)@.len() + chunk@.len() <= usize::MAX,
        ensures
            final (self)@ == old(self)@ + chunk@,
    {
        let ghost start = self.buf@;
        let mut i: usize = 0;
        while i < chunk.len()
            invariant
                i <= chunk@.len(),
                self.buf@ == start + chunk@.subrange(0, i as int),
                start.len() + chunk@.len() <= usize::MAX,
            decreases chunk@.len() - i,
        {
            self.buf.push(chunk[i]);
            assert(self.buf@ =~= start + chunk@.subrange(0, i + 1 as int));
            i = i + 1;
        }
        assert(start + chunk@.subrange(0, chunk@.len() as int) =~= start + chunk@);
    }

    /// Takes the next complete frame off the front of the buffer, or
    /// returns nothing when no whole frame has arrived yet.
    pub fn next_frame(&mut self) -> (r: Option<Vec<u8>>)
        ensures
            match spec_decode_step(old(self)@) {
                Some((p, rest)) => r matches Some(v) && v@ == p && final (self)@ == rest,
                None => r is None && final (self)@ == old(self)@,
            },
    {
        if self.buf.len() < 4 {
            return None;
        }
        let b0 = self.buf[0];
        let b1 = self.buf[1];
        let b2 = self.buf[2];
        let b3 = self.buf[3];
        let n: u32 = (b0 as u32) + (b1 as u32) * 0x100 + (b2 as u32) * 0x10000 + (b3 as u32)
            * 0x1000000;
        assert(n == spec_le_value(b0, b1, b2, b3));
        if n as u64 > (self.buf.len() - 4) as u64 {
            return None;
        }
        let blen: usize = self.buf.len();
        let len: usize = n as usize;
        let mut payload: Vec<u8> = Vec::new();
        let mut i: usize = 0;
        while i < len
            invariant
                i <= len,
                len + 4 <= blen,
                blen == self.buf@.len(),
                payload@ == self.buf@.subrange(4, 4 + i as int),
            decreases len - i,
        {
            payload.push(self.buf[4 + i]);
            assert(payload@ =~= self.buf@.subrange(4, 4 + (i + 1) as int));
            i = i + 1;
        }
        let mut remainder: Vec<u8> = Vec::new();
        let mut j: usize = 4 + len;
        let ghost cut = 4 + len as int;
        while j < self.buf.len()
            invariant
                cut <= j <= self.buf@.len(),
                cut == 4 + (len as int),
                remainder@ == self.buf@.subrange(cut, j as int),
            decreases self.buf@.len() - j,
        {
            remainder.push(self.buf[j]);
            assert(remainder@ =~= self.buf@.subrange(cut, (j + 1) as int));
            j = j + 1;
        }
        assert(remainder@ =~= self.buf@.skip(4 + len as int));
        self.buf = remainder;
        Some(payload)
    }
}

} // verus!
