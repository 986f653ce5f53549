//! The frame for several devices on one line: as the plain frame, with the
//! number of the device after the version and one reserved byte after that.
//!
//! | offset | size | field                                    |
//! |--------|------|------------------------------------------|
//! | 0      | 4    | the letters `VKB2`                       |
//! | 4      | 1    | version, always 2                        |
//! | 5      | 1    | number of the device                     |
//! | 6      | 1    | reserved, written as 0                   |
//! | 7      | 2    | sequence number                          |
//! | 9      | 16   | eight scaled axes, two bytes each        |
//! | 25     | 1    | hat x, signed                            |
//! | 26     | 1    | hat y, signed                            |
//! | 27     | 16   | buttons, button 1 is bit 0 of byte 0     |

use vstd::prelude::*;
use crate::axis::AxisRange;
use crate::sender::next_seq;
use crate::state::StateView;
use crate::wire::{
    lemma_payload_at, magic, packet_from_state, packet_of, payload_at, payload_byte, read_payload,
    write_payload, DecodeError, Packet, PacketView, VERSION,
};

verus! {

/// Length of a frame with a device number.
pub const PKT_LEN: usize = 43;

/// The snapshot of one device together with the ranges of its axes.
#[derive(Clone, Copy, Debug, PartialEq, Eq)]
pub struct SharedState {
    pub axis_range: [AxisRange; 8],
    pub input: crate::state::SharedState,
}

impl Default for SharedState {
    fn default() -> (st: Self)
        ensures
            st.axis_range@ == Seq::new(8, |i: int| (AxisRange { min: 0, max: 0 })),
            st.input@.axes_raw == Seq::new(8, |i: int| 0i32),
            st.input@.hat_x == 0,
            st.input@.hat_y == 0,
            st.input@.buttons == Seq::new(16, |i: int| 0u8),
            st.input@.revision == 0,
    {
        let st = SharedState {
            axis_range: [AxisRange { min: 0, max: 0 };8],
            input: crate::state::SharedState::default(),
        };
        assert(st.axis_range@ =~= Seq::new(8, |i: int| (AxisRange { min: 0, max: 0 })));
        st
    }
}

/// The frame of `p` for the device `device_id`.
pub open spec fn frame(device_id: u8, p: PacketView) -> Seq<u8> {
    Seq::new(43, |i: int|
        if i < 4 {
            magic()[i]
        } else if i == 4 {
            2u8
        } else if i == 5 {
            device_id
        } else if i == 6 {
            0u8
        } else {
            payload_byte(p, i - 7)
        })
}

/// What a datagram decodes to: the number of the device and the packet.
/// Only a datagram of exactly 43 bytes is a frame. The tests come in this
/// order: length, magic, version. The reserved byte is not looked at.
pub open spec fn decoded(data: Seq<u8>) -> Result<(u8, PacketView), DecodeError> {
    if data.len() < 43 {
        Err(DecodeError::TooShort)
    } else if data.len() > 43 {
        Err(DecodeError::TooLong)
    } else if data.subrange(0, 4) != magic() {
        Err(DecodeError::BadMagic)
    } else if data[4] != 2 {
        Err(DecodeError::BadVersion)
    } else {
        Ok((data[5], payload_at(data, 7)))
    }
}

/// A frame is 43 bytes long and decodes to the device number and the packet
/// it was made of.
pub proof fn lemma_decode_frame(device_id: u8, p: PacketView)
    requires
        p.wf(),
    ensures
        frame(device_id, p).len() == 43,
        decoded(frame(device_id, p)) == Ok::<(u8, PacketView), DecodeError>((device_id, p)),
{
    let f = frame(device_id, p);
    assert(f.subrange(0, 4) =~= magic());
    lemma_payload_at(f, 7, p);
}

/// What is sent is what arrives: the frame of a snapshot for a device under
/// a sequence number decodes to that device and sequence number with the
/// snapshot's hat and buttons and its axes scaled.
pub proof fn lemma_round_trip(device_id: u8, seq: u16, st: StateView, ranges: Seq<AxisRange>)
    requires
        st.wf(),
    ensures
        decoded(frame(device_id, packet_of(seq, st, ranges))) == Ok::<
            (u8, PacketView),
            DecodeError,
        >((device_id, packet_of(seq, st, ranges))),
{
    lemma_decode_frame(device_id, packet_of(seq, st, ranges));
}

/// What is not exactly 43 bytes long, does not start with `VKB2` or has
/// another version than 2 is no frame, and everything else is one.
pub proof fn lemma_rejects(data: Seq<u8>)
    ensures
        data.len() < 43 ==> decoded(data) == Err::<(u8, PacketView), DecodeError>(
            DecodeError::TooShort,
        ),
        data.len() > 43 ==> decoded(data) == Err::<(u8, PacketView), DecodeError>(
            DecodeError::TooLong,
        ),
        data.len() == 43 && data.subrange(0, 4) != magic() ==> decoded(data) == Err::<
            (u8, PacketView),
            DecodeError,
        >(DecodeError::BadMagic),
        data.len() == 43 && data.subrange(0, 4) == magic() && data[4] != 2 ==> decoded(data)
            == Err::<(u8, PacketView), DecodeError>(DecodeError::BadVersion),
        decoded(data).is_ok() <==> data.len() == 43 && data.subrange(0, 4) == magic() && data[4]
            == 2,
{
}

/// Neither kind of frame passes for the other: a frame with a device number
/// is too long for the plain decoder, and a plain frame is too short for
/// this one.
pub proof fn lemma_frames_apart(device_id: u8, p: PacketView)
    ensures
        crate::wire::decoded(frame(device_id, p)) == Err::<PacketView, DecodeError>(
            DecodeError::TooLong,
        ),
        decoded(crate::wire::frame(p)) == Err::<(u8, PacketView), DecodeError>(
            DecodeError::TooShort,
        ),
{
}

/// Reads a frame with a device number: see [`decoded`].
pub fn decode_vkb2(data: &[u8]) -> (r: Result<(u8, Packet), DecodeError>)
    ensures
        match r {
            Ok(dp) => decoded(data@) == Ok::<(u8, PacketView), DecodeError>((dp.0, dp.1@)),
            Err(e) => decoded(data@) == Err::<(u8, PacketView), DecodeError>(e),
        },
{
    if data.len() < PKT_LEN {
        return Err(DecodeError::TooShort);
    }
    if data.len() > PKT_LEN {
        return Err(DecodeError::TooLong);
    }
    if data[0] != 0x56 || data[1] != 0x4B || data[2] != 0x42 || data[3] != 0x32 {
        assert(data@.subrange(0, 4) != magic()) by {
            let s = data@.subrange(0, 4);
            assert(s[0] == data@[0] && s[1] == data@[1] && s[2] == data@[2] && s[3] == data@[3]);
        }
        return Err(DecodeError::BadMagic);
    }
    assert(data@.subrange(0, 4) =~= magic());
    if data[4] != VERSION {
        return Err(DecodeError::BadVersion);
    }
    Ok((data[5], read_payload(data, 7)))
}

/// Writes the frame of a snapshot for the device `device_id` under sequence
/// number `seq` into `buf`.
pub fn encode_vkb2(buf: &mut [u8; 43], seq: u16, device_id: u8, st: &SharedState)
    ensures
        final(buf)@ == frame(device_id, packet_of(seq, st.input@, st.axis_range@)),
{
    let p = packet_from_state(seq, &st.input, &st.axis_range);
    buf[0] = 0x56;
    buf[1] = 0x4B;
    buf[2] = 0x42;
    buf[3] = 0x32;
    buf[4] = VERSION;
    buf[5] = device_id;
    buf[6] = 0;
    write_payload(buf, 7, &p);
    assert(buf@ =~= frame(device_id, p@));
}

/// Writes the frame of a snapshot for the device `device_id` under the
/// sequence number `*seq` into `buf` and moves `*seq` on by one.
pub fn emit(buf: &mut [u8; 43], seq: &mut u16, device_id: u8, st: &SharedState)
    ensures
        final(buf)@ == frame(device_id, packet_of(*old(seq), st.input@, st.axis_range@)),
        *final(seq) == next_seq(*old(seq)),
{
    encode_vkb2(buf, *seq, device_id, st);
    *seq = seq.wrapping_add(1);
}

} // verus!
