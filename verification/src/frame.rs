//! The framing protocol: splitting a sentinel-delimited byte stream into
//! frames, and decomposing a frame into validated register-write commands.

use vstd::prelude::*;

verus! {

/// The sentinel byte that ends a frame.  It is also a legal data byte, so it
/// ends a frame only when the bytes accumulated so far pair off evenly.
pub const FRAME_ENDING_BYTE: u8 = 0xFF;

/// How many registers the chip decodes: addresses are 5 bits wide, so a valid
/// address is below this bound.
pub const REGISTER_COUNT: u8 = 32;

/// One register-write command: a 5-bit register address and an 8-bit value.
#[derive(Clone, Copy, Debug, PartialEq, Eq, Structural)]
pub struct RegisterWrite {
    pub address: u8,
    pub data: u8,
}

impl RegisterWrite {
    /// A command is well formed when its address fits the chip's 5 address
    /// lines.
    pub open spec fn wf(self) -> bool {
        self.address < REGISTER_COUNT
    }
}

/// Whether a byte arriving on top of the accumulated bytes `pending` completes
/// a frame: it must be the sentinel, and the accumulated count must be even.
/// A sentinel over an odd count is in-band data (the value of some register),
/// not a terminator.
pub open spec fn frame_complete(pending: Seq<u8>, b: u8) -> bool {
    b == FRAME_ENDING_BYTE && pending.len() % 2 == 0
}

/// The bytes still accumulating after `b` arrives on top of `pending`.
pub open spec fn reader_push_buf(pending: Seq<u8>, b: u8) -> Seq<u8> {
    if frame_complete(pending, b) {
        Seq::empty()
    } else {
        pending.push(b)
    }
}

/// The frame emitted, if any, when `b` arrives on top of `pending`: the
/// accumulated bytes with the sentinel stripped.
pub open spec fn reader_push_frame(pending: Seq<u8>, b: u8) -> Option<Seq<u8>> {
    if frame_complete(pending, b) {
        Some(pending)
    } else {
        None
    }
}

/// The bytes still accumulating after a whole `input` has arrived on top of
/// `pending`.
pub open spec fn reader_run_buf(pending: Seq<u8>, input: Seq<u8>) -> Seq<u8>
    decreases input.len(),
{
    if input.len() == 0 {
        pending
    } else {
        reader_run_buf(reader_push_buf(pending, input[0]), input.drop_first())
    }
}

/// Every frame emitted, in order, while a whole `input` arrives on top of
/// `pending`.
pub open spec fn reader_run_frames(pending: Seq<u8>, input: Seq<u8>) -> Seq<Seq<u8>>
    decreases input.len(),
{
    if input.len() == 0 {
        Seq::empty()
    } else {
        let rest = reader_run_frames(reader_push_buf(pending, input[0]), input.drop_first());
        match reader_push_frame(pending, input[0]) {
            Some(f) => seq![f] + rest,
            None => rest,
        }
    }
}

/// Law: a sentinel byte arriving over an odd accumulated count is in-band
/// data — it does not end the frame, it joins it.
pub proof fn lemma_sentinel_at_odd_offset_is_data(pending: Seq<u8>, b: u8)
    requires
        pending.len() % 2 == 1,
    ensures
        reader_push_frame(pending, b) is None,
        reader_push_buf(pending, b) == pending.push(b),
{
}

/// The frame reader: accumulates stream bytes until a sentinel ends a frame.
pub struct FrameReader {
    buf: Vec<u8>,
}

impl FrameReader {
    /// The bytes accumulated since the last emitted frame.
    pub closed spec fn pending(self) -> Seq<u8> {
        self.buf@
    }

    pub fn new() -> (r: FrameReader)
        ensures
            r.pending() == Seq::<u8>::empty(),
    {
        FrameReader { buf: Vec::new() }
    }

    /// Feeds one stream byte to the reader.  Exactly when the byte is the
    /// sentinel and the accumulated count is even, the accumulated bytes are
    /// emitted as a frame (sentinel stripped) and accumulation restarts
    /// empty; otherwise the byte joins the accumulation.
    pub fn push_byte(&mut self, b: u8) -> (frame: Option<Vec<u8>>)
        ensures
            final(self).pending() == reader_push_buf(old(self).pending(), b),
            match frame {
                Some(f) => reader_push_frame(old(self).pending(), b) == Some(f@),
                None => reader_push_frame(old(self).pending(), b) is None,
            },
    {
        if b == FRAME_ENDING_BYTE && self.buf.len() % 2 == 0 {
            let mut out: Vec<u8> = Vec::new();
            core::mem::swap(&mut out, &mut self.buf);
            Some(out)
        } else {
            self.buf.push(b);
            None
        }
    }
}

/// The register-write commands a frame of bytes decomposes into, in stream
/// order: byte `2i` is the address and byte `2i + 1` the data of command `i`.
pub open spec fn spec_pairs(frame: Seq<u8>) -> Seq<RegisterWrite> {
    Seq::new((frame.len() / 2) as nat, |i: int| RegisterWrite { address: frame[2 * i], data: frame[2 * i + 1] })
}

/// The trailing unpaired byte of a frame of odd length: an address that never
/// received its data.
pub open spec fn spec_dangling(frame: Seq<u8>) -> Option<u8> {
    if frame.len() % 2 == 1 {
        Some(frame.last())
    } else {
        None
    }
}

/// Whether every complete pair of a frame carries a valid 5-bit address.
pub open spec fn addresses_ok(frame: Seq<u8>) -> bool {
    forall|i: int| 0 <= i < spec_pairs(frame).len() ==> (#[trigger] spec_pairs(frame)[i]).wf()
}

/// A protocol violation found while decomposing a frame.
#[derive(Clone, Copy, Debug, PartialEq, Eq, Structural)]
pub enum FrameError {
    /// Pair `pair_index` of the frame carries `address`, which does not fit
    /// the chip's 5 address lines.  The wire format guarantees 5-bit
    /// addressing, so this is fatal: nothing of the frame is driven out.
    AddressOutOfRange { pair_index: usize, address: u8 },
}

/// A decomposed frame: its commands in stream order, and its trailing
/// unpaired address byte if the frame had odd length.
#[derive(Debug)]
pub struct FrameDecode {
    pub writes: Vec<RegisterWrite>,
    pub dangling: Option<u8>,
}

/// Decomposes a frame into register-write commands, two bytes at a time.  A
/// trailing unpaired byte is reported as dangling, not an error; an address
/// of 32 or more in any complete pair is a fatal protocol violation, reported
/// as the first such pair.
pub fn decode_frame(frame: &Vec<u8>) -> (r: Result<FrameDecode, FrameError>)
    ensures
        match r {
            Ok(d) => addresses_ok(frame@) && d.writes@ == spec_pairs(frame@)
                && d.dangling == spec_dangling(frame@),
            Err(e) => !addresses_ok(frame@) && match e {
                FrameError::AddressOutOfRange { pair_index, address } => {
                    &&& 0 <= pair_index < spec_pairs(frame@).len()
                    &&& !spec_pairs(frame@)[pair_index as int].wf()
                    &&& address == spec_pairs(frame@)[pair_index as int].address
                    &&& forall|i: int| 0 <= i < pair_index ==> (#[trigger] spec_pairs(frame@)[i]).wf()
                },
            },
        },
{
    let n = frame.len();
    let pairs = n / 2;
    let mut writes: Vec<RegisterWrite> = Vec::new();
    let mut idx: usize = 0;
    while idx < pairs
        invariant
            idx <= pairs,
            pairs == frame@.len() / 2,
            n == frame@.len(),
            writes@ == spec_pairs(frame@).take(idx as int),
            forall|i: int| 0 <= i < idx ==> (#[trigger] spec_pairs(frame@)[i]).wf(),
        decreases pairs - idx,
    {
        let address = frame[2 * idx];
        let data = frame[2 * idx + 1];
        if address >= REGISTER_COUNT {
            proof {
                assert(spec_pairs(frame@)[idx as int].address == frame@[2 * idx as int]);
                assert(!spec_pairs(frame@)[idx as int].wf());
                assert(!addresses_ok(frame@));
            }
            return Err(FrameError::AddressOutOfRange { pair_index: idx, address });
        }
        writes.push(RegisterWrite { address, data });
        idx = idx + 1;
        proof {
            assert(writes@ =~= spec_pairs(frame@).take(idx as int));
        }
    }
    let dangling = if n % 2 == 1 {
        Some(frame[n - 1])
    } else {
        None
    };
    proof {
        assert(writes@ =~= spec_pairs(frame@));
    }
    Ok(FrameDecode { writes, dangling })
}

/// The frame body that carries a sequence of commands on the wire:
/// alternating address and data bytes, in stream order.
pub open spec fn spec_encode(ws: Seq<RegisterWrite>) -> Seq<u8> {
    Seq::new(2 * ws.len(), |i: int| if i % 2 == 0 { ws[i / 2].address } else { ws[i / 2].data })
}

/// Encodes commands as a frame body of alternating address and data bytes.
pub fn encode_writes(ws: &Vec<RegisterWrite>) -> (r: Vec<u8>)
    requires
        2 * ws@.len() <= usize::MAX,
    ensures
        r@ == spec_encode(ws@),
{
    let mut out: Vec<u8> = Vec::new();
    let mut idx: usize = 0;
    while idx < ws.len()
        invariant
            idx <= ws@.len(),
            2 * ws@.len() <= usize::MAX,
            out@ == spec_encode(ws@).take(2 * idx as int),
        decreases ws@.len() - idx,
    {
        out.push(ws[idx].address);
        out.push(ws[idx].data);
        idx = idx + 1;
        proof {
            assert(out@ =~= spec_encode(ws@).take(2 * idx as int));
        }
    }
    proof {
        assert(out@ =~= spec_encode(ws@));
    }
    out
}

/// Running the reader over `a + b` is running it over `a`, then over `b` from
/// where `a` left it; the emitted frames concatenate.
pub proof fn lemma_reader_run_split(pending: Seq<u8>, a: Seq<u8>, b: Seq<u8>)
    ensures
        reader_run_buf(pending, a + b) == reader_run_buf(reader_run_buf(pending, a), b),
        reader_run_frames(pending, a + b)
            == reader_run_frames(pending, a) + reader_run_frames(reader_run_buf(pending, a), b),
    decreases a.len(),
{
    if a.len() == 0 {
        assert(a + b =~= b);
        assert(reader_run_frames(pending, a) + reader_run_frames(pending, b)
            =~= reader_run_frames(pending, b));
    } else {
        assert((a + b).drop_first() =~= a.drop_first() + b);
        assert((a + b)[0] == a[0]);
        let pending1 = reader_push_buf(pending, a[0]);
        lemma_reader_run_split(pending1, a.drop_first(), b);
        match reader_push_frame(pending, a[0]) {
            Some(f) => {
                assert(seq![f] + (reader_run_frames(pending1, a.drop_first())
                    + reader_run_frames(reader_run_buf(pending1, a.drop_first()), b))
                    =~= (seq![f] + reader_run_frames(pending1, a.drop_first()))
                        + reader_run_frames(reader_run_buf(pending1, a.drop_first()), b));
            },
            None => {},
        }
    }
}

/// A frame body of well-formed commands never completes a frame early: every
/// address byte is below 32 (so never the sentinel), and every data byte sits
/// over an odd accumulated count.  The whole body simply accumulates.
proof fn lemma_reader_consumes_body(pending: Seq<u8>, ws: Seq<RegisterWrite>)
    requires
        pending.len() % 2 == 0,
        forall|i: int| 0 <= i < ws.len() ==> (#[trigger] ws[i]).wf(),
    ensures
        reader_run_buf(pending, spec_encode(ws)) == pending + spec_encode(ws),
        reader_run_frames(pending, spec_encode(ws)) == Seq::<Seq<u8>>::empty(),
    decreases ws.len(),
{
    let e = spec_encode(ws);
    if ws.len() == 0 {
        assert(pending + e =~= pending);
    } else {
        assert(ws[0].wf());
        assert(e[0] == ws[0].address);
        assert(e[0] != FRAME_ENDING_BYTE);
        let pending1 = reader_push_buf(pending, e[0]);
        assert(pending1 == pending.push(e[0]));
        let e1 = e.drop_first();
        assert(e1[0] == ws[0].data);
        assert(pending1.len() % 2 == 1);
        let pending2 = reader_push_buf(pending1, e1[0]);
        assert(pending2 == pending1.push(e1[0]));
        assert(pending2.len() % 2 == 0);
        let rest = ws.drop_first();
        assert(e1.drop_first() =~= spec_encode(rest));
        lemma_reader_consumes_body(pending2, rest);
        assert(reader_push_frame(pending, e[0]) is None);
        assert(reader_push_frame(pending1, e1[0]) is None);
        assert(reader_run_buf(pending, e) == reader_run_buf(pending1, e1));
        assert(reader_run_buf(pending1, e1) == reader_run_buf(pending2, e1.drop_first()));
        assert(reader_run_frames(pending, e) == reader_run_frames(pending1, e1));
        assert(reader_run_frames(pending1, e1) == reader_run_frames(pending2, e1.drop_first()));
        assert(pending2 + spec_encode(rest) =~= pending + e);
    }
}

/// Law: framing round-trip.  Encode well-formed commands as alternating
/// address/data bytes and close with the sentinel: the reader emits exactly
/// that one frame (the sentinel never collides with a would-be terminator,
/// because every data byte — the only place `0xFF` can occur — sits at an odd
/// offset), and decomposing the frame reproduces the commands exactly, with
/// no dangling byte and no address violation.
pub proof fn lemma_framing_round_trip(ws: Seq<RegisterWrite>)
    requires
        forall|i: int| 0 <= i < ws.len() ==> (#[trigger] ws[i]).wf(),
    ensures
        reader_run_frames(Seq::empty(), spec_encode(ws).push(FRAME_ENDING_BYTE))
            == seq![spec_encode(ws)],
        reader_run_buf(Seq::empty(), spec_encode(ws).push(FRAME_ENDING_BYTE))
            == Seq::<u8>::empty(),
        addresses_ok(spec_encode(ws)),
        spec_pairs(spec_encode(ws)) == ws,
        spec_dangling(spec_encode(ws)) is None,
{
    let e = spec_encode(ws);
    let sentinel = seq![FRAME_ENDING_BYTE];
    assert(e.push(FRAME_ENDING_BYTE) =~= e + sentinel);
    lemma_reader_run_split(Seq::empty(), e, sentinel);
    lemma_reader_consumes_body(Seq::empty(), ws);
    assert(reader_run_buf(Seq::empty(), e) =~= e);
    assert(frame_complete(e, FRAME_ENDING_BYTE));
    assert(sentinel.drop_first() =~= Seq::<u8>::empty());
    assert(reader_push_buf(e, FRAME_ENDING_BYTE) == Seq::<u8>::empty());
    assert(reader_run_buf(reader_push_buf(e, FRAME_ENDING_BYTE), sentinel.drop_first())
        == Seq::<u8>::empty());
    assert(reader_run_frames(reader_push_buf(e, FRAME_ENDING_BYTE), sentinel.drop_first())
        == Seq::<Seq<u8>>::empty());
    assert(reader_run_buf(e, sentinel) == Seq::<u8>::empty());
    assert(reader_run_frames(e, sentinel) =~= seq![e]);
    assert(reader_run_frames(Seq::empty(), e + sentinel) =~= seq![e]);
    assert(spec_pairs(e) =~= ws);
    assert(addresses_ok(e));
}

} // verus!
