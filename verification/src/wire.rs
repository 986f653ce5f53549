//! The frame that carries one snapshot over the network.
//!
//! A frame is exactly 42 bytes, integers little-endian:
//!
//! | offset | size | field                                    |
//! |--------|------|------------------------------------------|
//! | 0      | 4    | the letters `VKB2`                       |
//! | 4      | 1    | version, always 2                        |
//! | 5      | 1    | reserved, written as 0                   |
//! | 6      | 2    | sequence number                          |
//! | 8      | 16   | eight scaled axes, two bytes each        |
//! | 24     | 1    | hat x, signed                            |
//! | 25     | 1    | hat y, signed                            |
//! | 26     | 16   | buttons, button 1 is bit 0 of byte 0     |

use vstd::prelude::*;
use crate::axis::{normalize_axis, normalized, AxisRange};
use crate::state::{SharedState, StateView};

verus! {

/// Length of a frame in bytes.
pub const PKT_LEN: usize = 42;

/// Version byte of the frames this library writes and accepts.
pub const VERSION: u8 = 2;

/// Number of bytes after the header: sequence, axes, hat and buttons.
pub const PAYLOAD_LEN: usize = 36;

/// What one frame carries.
#[derive(Clone, Copy, Debug, PartialEq, Eq)]
pub struct Packet {
    pub seq: u16,
    pub axes: [u16; 8],
    pub hat_x: i8,
    pub hat_y: i8,
    pub buttons: [u8; 16],
}

/// A packet as mathematical value.
pub struct PacketView {
    pub seq: u16,
    pub axes: Seq<u16>,
    pub hat_x: i8,
    pub hat_y: i8,
    pub buttons: Seq<u8>,
}

impl View for Packet {
    type V = PacketView;

    open spec fn view(&self) -> PacketView {
        PacketView {
            seq: self.seq,
            axes: self.axes@,
            hat_x: self.hat_x,
            hat_y: self.hat_y,
            buttons: self.buttons@,
        }
    }
}

impl PacketView {
    /// Eight axes and sixteen bytes of buttons.
    pub open spec fn wf(self) -> bool {
        self.axes.len() == 8 && self.buttons.len() == 16
    }
}

/// Why a datagram was not accepted as a frame.
#[derive(Clone, Copy, Debug, PartialEq, Eq, Structural)]
pub enum DecodeError {
    /// Fewer bytes than a frame has.
    TooShort,
    /// More bytes than a frame has.
    TooLong,
    /// The first four bytes are not `VKB2`.
    BadMagic,
    /// The version byte is not 2.
    BadVersion,
}

/// The four bytes every frame starts with.
pub open spec fn magic() -> Seq<u8> {
    seq![0x56u8, 0x4Bu8, 0x42u8, 0x32u8]
}

/// Low byte of a 16-bit value.
pub open spec fn lo_byte(v: u16) -> u8 {
    (v % 256) as u8
}

/// High byte of a 16-bit value.
pub open spec fn hi_byte(v: u16) -> u8 {
    (v / 256) as u8
}

/// The 16-bit value with the given low and high byte.
pub open spec fn join_bytes(lo: u8, hi: u8) -> u16 {
    (lo as int + 256 * (hi as int)) as u16
}

/// The byte that stands for a signed byte on the wire (two's complement).
pub open spec fn signed_to_byte(v: i8) -> u8 {
    if v >= 0 { v as u8 } else { (v + 256) as u8 }
}

/// The signed byte that a byte on the wire stands for.
pub open spec fn byte_to_signed(b: u8) -> i8 {
    if b < 128 { b as i8 } else { (b - 256) as i8 }
}

/// Byte `i` of the payload of `p`: sequence, axes, hat, buttons.
pub open spec fn payload_byte(p: PacketView, i: int) -> u8 {
    if i == 0 {
        lo_byte(p.seq)
    } else if i == 1 {
        hi_byte(p.seq)
    } else if i < 18 {
        if i % 2 == 0 { lo_byte(p.axes[(i - 2) / 2]) } else { hi_byte(p.axes[(i - 2) / 2]) }
    } else if i == 18 {
        signed_to_byte(p.hat_x)
    } else if i == 19 {
        signed_to_byte(p.hat_y)
    } else {
        p.buttons[i - 20]
    }
}

/// The frame of `p`.
pub open spec fn frame(p: PacketView) -> Seq<u8> {
    Seq::new(42, |i: int|
        if i < 4 {
            magic()[i]
        } else if i == 4 {
            2u8
        } else if i == 5 {
            0u8
        } else {
            payload_byte(p, i - 6)
        })
}

/// The packet whose payload starts at `off` in `data`.
pub open spec fn payload_at(data: Seq<u8>, off: int) -> PacketView {
    PacketView {
        seq: join_bytes(data[off], data[off + 1]),
        axes: Seq::new(8, |k: int| join_bytes(data[off + 2 + 2 * k], data[off + 3 + 2 * k])),
        hat_x: byte_to_signed(data[off + 18]),
        hat_y: byte_to_signed(data[off + 19]),
        buttons: data.subrange(off + 20, off + 36),
    }
}

/// What a datagram decodes to. Only a datagram of exactly 42 bytes is a
/// frame. The tests come in this order: length, magic, version. The reserved
/// byte is not looked at.
pub open spec fn decoded(data: Seq<u8>) -> Result<PacketView, DecodeError> {
    if data.len() < 42 {
        Err(DecodeError::TooShort)
    } else if data.len() > 42 {
        Err(DecodeError::TooLong)
    } else if data.subrange(0, 4) != magic() {
        Err(DecodeError::BadMagic)
    } else if data[4] != 2 {
        Err(DecodeError::BadVersion)
    } else {
        Ok(payload_at(data, 6))
    }
}

/// The packet that a snapshot gives under sequence number `seq`: each raw
/// axis scaled by its range, hat and buttons as they are.
pub open spec fn packet_of(seq: u16, st: StateView, ranges: Seq<AxisRange>) -> PacketView {
    PacketView {
        seq,
        axes: Seq::new(
            8,
            |k: int| normalized(st.axes_raw[k] as int, ranges[k].min as int, ranges[k].max as int) as u16,
        ),
        hat_x: st.hat_x,
        hat_y: st.hat_y,
        buttons: st.buttons,
    }
}

/// A 16-bit value comes back from its two bytes.
pub proof fn lemma_join_split(v: u16)
    ensures
        join_bytes(lo_byte(v), hi_byte(v)) == v,
{
}

/// A signed byte comes back from its byte on the wire.
pub proof fn lemma_signed_byte(v: i8)
    ensures
        byte_to_signed(signed_to_byte(v)) == v,
{
}

/// A payload that stands in `data` from `off` on is read back as the packet
/// it was made of.
pub proof fn lemma_payload_at(data: Seq<u8>, off: int, p: PacketView)
    requires
        p.wf(),
        0 <= off,
        off + 36 <= data.len(),
        forall|i: int| 0 <= i < 36 ==> data[off + i] == payload_byte(p, i),
    ensures
        payload_at(data, off) == p,
{
    let q = payload_at(data, off);
    lemma_join_split(p.seq);
    lemma_signed_byte(p.hat_x);
    lemma_signed_byte(p.hat_y);
    assert(data[off] == payload_byte(p, 0));
    assert(data[off + 1] == payload_byte(p, 1));
    assert(data[off + 18] == payload_byte(p, 18));
    assert(data[off + 19] == payload_byte(p, 19));
    assert(q.axes =~= p.axes) by {
        assert forall|k: int| 0 <= k < 8 implies q.axes[k] == p.axes[k] by {
            lemma_join_split(p.axes[k]);
            assert(data[off + 2 + 2 * k] == payload_byte(p, 2 + 2 * k));
            assert(data[off + 3 + 2 * k] == payload_byte(p, 3 + 2 * k));
        }
    }
    assert(q.buttons =~= p.buttons) by {
        assert forall|j: int| 0 <= j < 16 implies q.buttons[j] == p.buttons[j] by {
            assert(data[off + 20 + j] == payload_byte(p, 20 + j));
        }
    }
}

/// A frame is 42 bytes long and decodes to the packet it was made of.
pub proof fn lemma_decode_frame(p: PacketView)
    requires
        p.wf(),
    ensures
        frame(p).len() == 42,
        decoded(frame(p)) == Ok::<PacketView, DecodeError>(p),
{
    let f = frame(p);
    assert(f.subrange(0, 4) =~= magic());
    lemma_payload_at(f, 6, p);
}

/// Every axis of the packet of a snapshot lies between 0 and 32768.
pub proof fn lemma_packet_axes_bounded(seq: u16, st: StateView, ranges: Seq<AxisRange>, k: int)
    requires
        0 <= k < 8,
    ensures
        packet_of(seq, st, ranges).axes[k] <= 32768,
        packet_of(seq, st, ranges).axes[k] as int == normalized(
            st.axes_raw[k] as int,
            ranges[k].min as int,
            ranges[k].max as int,
        ),
{
    crate::axis::lemma_normalized_bounded(
        st.axes_raw[k] as int,
        ranges[k].min as int,
        ranges[k].max as int,
    );
}

/// What is sent is what arrives: the frame of a snapshot under a sequence
/// number decodes to that sequence number with the snapshot's hat and
/// buttons and its axes scaled.
pub proof fn lemma_round_trip(seq: u16, st: StateView, ranges: Seq<AxisRange>)
    requires
        st.wf(),
    ensures
        decoded(frame(packet_of(seq, st, ranges))) == Ok::<PacketView, DecodeError>(
            packet_of(seq, st, ranges),
        ),
        packet_of(seq, st, ranges).seq == seq,
        packet_of(seq, st, ranges).hat_x == st.hat_x,
        packet_of(seq, st, ranges).hat_y == st.hat_y,
        packet_of(seq, st, ranges).buttons == st.buttons,
{
    lemma_decode_frame(packet_of(seq, st, ranges));
}

/// What is not exactly 42 bytes long, does not start with `VKB2` or has
/// another version than 2 is no frame, and everything else is one.
pub proof fn lemma_rejects(data: Seq<u8>)
    ensures
        data.len() < 42 ==> decoded(data) == Err::<PacketView, DecodeError>(DecodeError::TooShort),
        data.len() > 42 ==> decoded(data) == Err::<PacketView, DecodeError>(DecodeError::TooLong),
        data.len() == 42 && data.subrange(0, 4) != magic() ==> decoded(data) == Err::<
            PacketView,
            DecodeError,
        >(DecodeError::BadMagic),
        data.len() == 42 && data.subrange(0, 4) == magic() && data[4] != 2 ==> decoded(data)
            == Err::<PacketView, DecodeError>(DecodeError::BadVersion),
        decoded(data).is_ok() <==> data.len() == 42 && data.subrange(0, 4) == magic() && data[4]
            == 2,
{
}

fn byte_of_signed(v: i8) -> (b: u8)
    ensures
        b == signed_to_byte(v),
{
    if v >= 0 {
        v as u8
    } else {
        (v as i16 + 256) as u8
    }
}

fn signed_of_byte(b: u8) -> (v: i8)
    ensures
        v == byte_to_signed(b),
{
    if b < 128 {
        b as i8
    } else {
        (b as i16 - 256) as i8
    }
}

fn u16_of_bytes(lo: u8, hi: u8) -> (v: u16)
    ensures
        v == join_bytes(lo, hi),
{
    lo as u16 + 256 * (hi as u16)
}

/// Scales the axes of a snapshot and puts it together with `seq`.
pub fn packet_from_state(seq: u16, st: &SharedState, ranges: &[AxisRange; 8]) -> (p: Packet)
    ensures
        p@ == packet_of(seq, st@, ranges@),
        forall|k: int| 0 <= k < 8 ==> p.axes@[k] <= 32768,
{
    let mut axes = [0u16; 8];
    let mut i: usize = 0;
    while i < 8
        invariant
            i <= 8,
            forall|k: int| 0 <= k < i ==> axes@[k] as int == normalized(
                st.axes_raw[k] as int,
                ranges[k].min as int,
                ranges[k].max as int,
            ),
            forall|k: int| 0 <= k < i ==> axes@[k] <= 32768,
        decreases 8 - i,
    {
        axes[i] = normalize_axis(st.axes_raw[i], ranges[i]);
        i += 1;
    }
    let p = Packet { seq, axes, hat_x: st.hat_x, hat_y: st.hat_y, buttons: st.buttons };
    assert(p@.axes =~= packet_of(seq, st@, ranges@).axes);
    p
}

/// Writes the 36 bytes of the payload of `p` into `buf` from `off` on.
pub fn write_payload<const N: usize>(buf: &mut [u8; N], off: usize, p: &Packet)
    requires
        off + 36 <= N,
    ensures
        forall|i: int| 0 <= i < off ==> final(buf)@[i] == old(buf)@[i],
        forall|i: int| off + 36 <= i < N ==> final(buf)@[i] == old(buf)@[i],
        forall|i: int| 0 <= i < 36 ==> final(buf)@[off + i] == payload_byte(p@, i),
{
    buf[off] = (p.seq % 256) as u8;
    buf[off + 1] = (p.seq / 256) as u8;
    let mut k: usize = 0;
    while k < 8
        invariant
            k <= 8,
            off + 36 <= N,
            forall|i: int| 0 <= i < off ==> buf@[i] == old(buf)@[i],
            forall|i: int| off + 36 <= i < N ==> buf@[i] == old(buf)@[i],
            forall|i: int| 0 <= i < 2 + 2 * k ==> buf@[off + i] == payload_byte(p@, i),
        decreases 8 - k,
    {
        let v = p.axes[k];
        buf[off + 2 + 2 * k] = (v % 256) as u8;
        buf[off + 3 + 2 * k] = (v / 256) as u8;
        k += 1;
    }
    buf[off + 18] = byte_of_signed(p.hat_x);
    buf[off + 19] = byte_of_signed(p.hat_y);
    let mut j: usize = 0;
    while j < 16
        invariant
            j <= 16,
            off + 36 <= N,
            forall|i: int| 0 <= i < off ==> buf@[i] == old(buf)@[i],
            forall|i: int| off + 36 <= i < N ==> buf@[i] == old(buf)@[i],
            forall|i: int| 0 <= i < 20 + j ==> buf@[off + i] == payload_byte(p@, i),
        decreases 16 - j,
    {
        buf[off + 20 + j] = p.buttons[j];
        j += 1;
    }
}

/// Reads the 36 bytes of a payload from `off` on.
pub fn read_payload(data: &[u8], off: usize) -> (p: Packet)
    requires
        off + 36 <= data@.len(),
    ensures
        p@ == payload_at(data@, off as int),
{
    let len = data.len();
    let seq = u16_of_bytes(data[off], data[off + 1]);
    let mut axes = [0u16; 8];
    let mut k: usize = 0;
    while k < 8
        invariant
            k <= 8,
            off + 36 <= len,
            len == data@.len(),
            forall|i: int|
                0 <= i < k ==> axes@[i] == join_bytes(data@[off + 2 + 2 * i], data@[off + 3 + 2 * i]),
        decreases 8 - k,
    {
        axes[k] = u16_of_bytes(data[off + 2 + 2 * k], data[off + 3 + 2 * k]);
        k += 1;
    }
    let hat_x = signed_of_byte(data[off + 18]);
    let hat_y = signed_of_byte(data[off + 19]);
    let mut buttons = [0u8; 16];
    let mut j: usize = 0;
    while j < 16
        invariant
            j <= 16,
            off + 36 <= len,
            len == data@.len(),
            forall|i: int| 0 <= i < j ==> buttons@[i] == data@[off + 20 + i],
        decreases 16 - j,
    {
        buttons[j] = data[off + 20 + j];
        j += 1;
    }
    let p = Packet { seq, axes, hat_x, hat_y, buttons };
    assert(p@.axes =~= payload_at(data@, off as int).axes);
    assert(p@.buttons =~= payload_at(data@, off as int).buttons);
    p
}

/// Writes the frame of a snapshot under sequence number `seq` into `buf`.
pub fn encode_vkb2(buf: &mut [u8; 42], seq: u16, st: &SharedState, ranges: &[AxisRange; 8])
    ensures
        final(buf)@ == frame(packet_of(seq, st@, ranges@)),
{
    let p = packet_from_state(seq, st, ranges);
    encode_packet(buf, &p);
}

/// Writes the frame of `p` into `buf`.
pub fn encode_packet(buf: &mut [u8; 42], p: &Packet)
    ensures
        final(buf)@ == frame(p@),
{
    buf[0] = 0x56;
    buf[1] = 0x4B;
    buf[2] = 0x42;
    buf[3] = 0x32;
    buf[4] = VERSION;
    buf[5] = 0;
    write_payload(buf, 6, p);
    assert(buf@ =~= frame(p@));
}

/// Reads a frame: see [`decoded`].
pub fn decode_vkb2(data: &[u8]) -> (r: Result<Packet, DecodeError>)
    ensures
        match r {
            Ok(p) => decoded(data@) == Ok::<PacketView, DecodeError>(p@),
            Err(e) => decoded(data@) == Err::<PacketView, DecodeError>(e),
        },
{
    if data.len() < PKT_LEN {
        return Err(DecodeError::TooShort);
    }
    if data.len() > PKT_LEN {
        return Err(DecodeError::TooLong);
    }
    if data[0] != 0x56 || data[1] != 0x4B || data[2] != 0x42 || data[3] != 0x32 {
        assert(data@.subrange(0, 4) != magic()) by {
            let s = data@.subrange(0, 4);
            assert(s[0] == data@[0] && s[1] == data@[1] && s[2] == data@[2] && s[3] == data@[3]);
        }
        return Err(DecodeError::BadMagic);
    }
    assert(data@.subrange(0, 4) =~= magic());
    if data[4] != VERSION {
        return Err(DecodeError::BadVersion);
    }
    Ok(read_payload(data, 6))
}

} // verus!
