//! Bus transcripts: the operations a drawing request puts on the wire, their
//! abstract view, and the framing of pixel payloads into bounded chunks.

use vstd::prelude::*;

use crate::cmd;

verus! {

/// One operation on the display's lines, in the order it must be performed.
#[derive(Debug, Clone, PartialEq, Eq)]
pub enum BusOp {
    /// Data/command line low, then this one byte on the bus.
    Command(u8),
    /// Data/command line high, then these bytes on the bus.
    Data(Vec<u8>),
    /// Drive the reset line to this level; a failure of the line is ignored.
    Reset(bool),
    /// Drive the backlight line to this level.
    Backlight(bool),
    /// Block for this many milliseconds.
    Delay(u32),
}

/// Abstract view of a [`BusOp`].
pub enum Op {
    Command(u8),
    Data(Seq<u8>),
    Reset(bool),
    Backlight(bool),
    Delay(u32),
}

impl View for BusOp {
    type V = Op;

    open spec fn view(&self) -> Op {
        match self {
            BusOp::Command(c) => Op::Command(*c),
            BusOp::Data(d) => Op::Data(d@),
            BusOp::Reset(l) => Op::Reset(*l),
            BusOp::Backlight(l) => Op::Backlight(*l),
            BusOp::Delay(ms) => Op::Delay(*ms),
        }
    }
}

/// View of a transcript.
pub open spec fn ops_view(s: Seq<BusOp>) -> Seq<Op> {
    s.map_values(|o: BusOp| o@)
}

/// Most significant byte of a 16-bit word.
pub open spec fn hi(v: u16) -> u8 {
    (v / 256) as u8
}

/// Least significant byte of a 16-bit word.
pub open spec fn lo(v: u16) -> u8 {
    (v % 256) as u8
}

/// A 16-bit word on the wire: most significant byte first.
pub open spec fn be(v: u16) -> Seq<u8> {
    seq![hi(v), lo(v)]
}

/// Pixels on the wire, each as a big-endian byte pair.
pub open spec fn pixel_bytes(px: Seq<u16>) -> Seq<u8> {
    Seq::new(2 * px.len(), |i: int| if i % 2 == 0 { hi(px[i / 2]) } else { lo(px[i / 2]) })
}

/// Pixels held by the streaming buffer.
pub const CHUNK_PIXELS: usize = 64;

/// Bytes held by the streaming buffer.
pub const CHUNK_BYTES: usize = 128;

/// Number of chunks that carry `n` bytes.
pub open spec fn chunk_count(n: nat) -> nat {
    ((n + 127) / 128) as nat
}

/// The `k`-th chunk of a byte stream.
pub open spec fn chunk(b: Seq<u8>, k: int) -> Seq<u8> {
    b.subrange(128 * k, if 128 * k + 128 <= b.len() { 128 * k + 128 } else { b.len() as int })
}

/// A byte stream as data writes of at most `CHUNK_BYTES` bytes, every one full
/// but the last.
pub open spec fn stream_ops(b: Seq<u8>) -> Seq<Op> {
    Seq::new(chunk_count(b.len()), |k: int| Op::Data(chunk(b, k)))
}

/// Address window set-up: column bounds, row bounds, then memory write.
pub open spec fn window_ops(x0: u16, y0: u16, x1: u16, y1: u16) -> Seq<Op> {
    seq![
        Op::Command(cmd::CASET),
        Op::Data(be(x0)),
        Op::Data(be(x1)),
        Op::Command(cmd::RASET),
        Op::Data(be(y0)),
        Op::Data(be(y1)),
        Op::Command(cmd::RAMWR),
    ]
}

/// The two bytes of a word, most significant first.
pub fn word_bytes(v: u16) -> (r: (u8, u8))
    ensures
        r.0 == hi(v),
        r.1 == lo(v),
{
    assert(#[verifier::truncate] ((v >> 8) as u8) == hi(v)) by (bit_vector);
    assert(#[verifier::truncate] (v as u8) == lo(v)) by (bit_vector);
    (#[verifier::truncate] ((v >> 8) as u8), #[verifier::truncate] (v as u8))
}

/// Appends one operation.
pub fn emit(out: &mut Vec<BusOp>, op: BusOp)
    ensures
        ops_view(final(out)@) == ops_view(old(out)@).push(op@),
{
    let ghost before = out@;
    out.push(op);
    assert(ops_view(out@) =~= ops_view(before).push(op@));
}

/// Appends a command byte (data/command line low).
pub fn write_command(out: &mut Vec<BusOp>, c: u8)
    ensures
        ops_view(final(out)@) == ops_view(old(out)@).push(Op::Command(c)),
{
    emit(out, BusOp::Command(c));
}

/// Appends a data write of the given bytes (data/command line high).
pub fn write_data(out: &mut Vec<BusOp>, data: &[u8])
    ensures
        ops_view(final(out)@) == ops_view(old(out)@).push(Op::Data(data@)),
{
    let v = vstd::slice::slice_to_vec(data);
    emit(out, BusOp::Data(v));
}

/// Appends a 16-bit word as one data write, most significant byte first.
pub fn write_data_u16(out: &mut Vec<BusOp>, v: u16)
    ensures
        ops_view(final(out)@) == ops_view(old(out)@).push(Op::Data(be(v))),
{
    let (h, l) = word_bytes(v);
    let bytes = vec![h, l];
    assert(bytes@ =~= be(v));
    emit(out, BusOp::Data(bytes));
}

/// Appends the address window set-up for the inclusive rectangle
/// `(x0, y0)..=(x1, y1)` in native panel coordinates.
pub fn set_address_window(out: &mut Vec<BusOp>, x0: u16, y0: u16, x1: u16, y1: u16)
    ensures
        ops_view(final(out)@) == ops_view(old(out)@) + window_ops(x0, y0, x1, y1),
{
    let ghost start = ops_view(out@);
    write_command(out, cmd::CASET);
    write_data_u16(out, x0);
    write_data_u16(out, x1);
    write_command(out, cmd::RASET);
    write_data_u16(out, y0);
    write_data_u16(out, y1);
    write_command(out, cmd::RAMWR);
    assert(ops_view(out@) =~= start + window_ops(x0, y0, x1, y1));
}


/// `n` copies of one color.
pub open spec fn solid(c: u16, n: nat) -> Seq<u16> {
    Seq::new(n, |i: int| c)
}

proof fn lemma_chunk_len(b: Seq<u8>, k: int)
    requires
        0 <= k,
        128 * k < b.len(),
    ensures
        chunk(b, k).len() == if 128 * k + 128 <= b.len() { 128 } else { b.len() - 128 * k },
{
}

/// The `k`-th chunk of a pixel stream is the byte image of the pixels it covers.
proof fn lemma_pixel_chunk(px: Seq<u16>, k: int, m: int)
    requires
        0 <= k,
        0 < m <= 64,
        64 * k + m <= px.len(),
        m == 64 || 64 * k + m == px.len(),
    ensures
        chunk(pixel_bytes(px), k) =~= pixel_bytes(px.subrange(64 * k, 64 * k + m)),
{
    let b = pixel_bytes(px);
    let c = chunk(b, k);
    let sub = px.subrange(64 * k, 64 * k + m);
    assert(c.len() == 2 * m);
    assert forall|i: int| 0 <= i < 2 * m implies c[i] == pixel_bytes(sub)[i] by {
        assert((128 * k + i) % 2 == i % 2);
        assert((128 * k + i) / 2 == 64 * k + i / 2);
    }
}

/// Streams `n` copies of `color`: the data/command line goes high and the
/// pixels follow in chunks of at most `CHUNK_PIXELS`, all cut from one buffer
/// that is filled once.
pub fn stream_fill(out: &mut Vec<BusOp>, color: u16, n: usize)
    requires
        n <= usize::MAX / 2,
    ensures
        ops_view(final(out)@) == ops_view(old(out)@) + stream_ops(pixel_bytes(solid(color, n as nat))),
{
    let ghost start = ops_view(out@);
    let ghost px = solid(color, n as nat);
    let ghost bytes = pixel_bytes(px);
    let (h, l) = word_bytes(color);
    let mut buf: Vec<u8> = Vec::new();
    let mut i: usize = 0;
    while i < CHUNK_PIXELS
        invariant
            i <= CHUNK_PIXELS,
            buf@ =~= pixel_bytes(solid(color, i as nat)),
            h == hi(color),
            l == lo(color),
        decreases CHUNK_PIXELS - i,
    {
        buf.push(h);
        buf.push(l);
        i = i + 1;
        assert(buf@ =~= pixel_bytes(solid(color, i as nat)));
    }
    let mut remaining: usize = n;
    let mut k: usize = 0;
    while remaining > 0
        invariant
            remaining <= n,
            n <= usize::MAX / 2,
            px == solid(color, n as nat),
            bytes == pixel_bytes(px),
            buf@ == pixel_bytes(solid(color, 64)),
            remaining > 0 ==> n - remaining == 64 * k,
            remaining == 0 ==> k == chunk_count(bytes.len()),
            ops_view(out@) == start + stream_ops(bytes).take(k as int),
        decreases remaining,
    {
        let m: usize = if remaining < CHUNK_PIXELS { remaining } else { CHUNK_PIXELS };
        let part = vstd::slice::slice_subrange(buf.as_slice(), 0, m * 2);
        let data = vstd::slice::slice_to_vec(part);
        proof {
            lemma_pixel_chunk(px, k as int, m as int);
            assert(px.subrange(64 * k, 64 * k + m) =~= solid(color, m as nat));
            assert(data@ =~= pixel_bytes(solid(color, m as nat)));
            assert(k < chunk_count(bytes.len()));
        }
        emit(out, BusOp::Data(data));
        remaining = remaining - m;
        k = k + 1;
        proof {
            assert(stream_ops(bytes).take(k as int) =~= stream_ops(bytes).take(k - 1).push(
                Op::Data(chunk(bytes, k - 1)),
            ));
        }
    }
    assert(stream_ops(bytes).take(k as int) =~= stream_ops(bytes));
}

/// Streams the first `n` pixels of `px` in chunks of at most `CHUNK_PIXELS`,
/// each a big-endian byte pair per pixel.
pub fn stream_pixels(out: &mut Vec<BusOp>, px: &[u16], n: usize)
    requires
        n <= px@.len(),
        n <= usize::MAX / 2,
    ensures
        ops_view(final(out)@) == ops_view(old(out)@) + stream_ops(pixel_bytes(px@.take(n as int))),
{
    let ghost start = ops_view(out@);
    let ghost sp = px@.take(n as int);
    let ghost bytes = pixel_bytes(sp);
    let mut sent: usize = 0;
    let mut k: usize = 0;
    while sent < n
        invariant
            sent <= n,
            n <= px@.len(),
            n <= usize::MAX / 2,
            sp == px@.take(n as int),
            bytes == pixel_bytes(sp),
            sent < n ==> sent == 64 * k,
            sent == n ==> k == chunk_count(bytes.len()),
            sent == 0 ==> k == 0,
            ops_view(out@) == start + stream_ops(bytes).take(k as int),
        decreases n - sent,
    {
        let m: usize = if n - sent < CHUNK_PIXELS { n - sent } else { CHUNK_PIXELS };
        let mut data: Vec<u8> = Vec::new();
        let mut j: usize = 0;
        while j < m
            invariant
                j <= m,
                sent + m <= n,
                n <= px@.len(),
                data@ =~= pixel_bytes(px@.subrange(sent as int, sent + j)),
            decreases m - j,
        {
            let (h, l) = word_bytes(px[sent + j]);
            data.push(h);
            data.push(l);
            j = j + 1;
            assert(data@ =~= pixel_bytes(px@.subrange(sent as int, sent + j)));
        }
        proof {
            lemma_pixel_chunk(sp, k as int, m as int);
            assert(sp.subrange(sent as int, sent + m) =~= px@.subrange(sent as int, sent + m));
            assert(k < chunk_count(bytes.len()));
        }
        emit(out, BusOp::Data(data));
        sent = sent + m;
        k = k + 1;
        proof {
            assert(stream_ops(bytes).take(k as int) =~= stream_ops(bytes).take(k - 1).push(
                Op::Data(chunk(bytes, k - 1)),
            ));
        }
    }
    assert(stream_ops(bytes).take(k as int) =~= stream_ops(bytes));
}

} // verus!
