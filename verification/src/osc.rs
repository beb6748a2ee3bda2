//! Encoding of the held pitch classes as an OSC message.
//!
//! Every update is sent to receivers as a single OSC message at the fixed
//! address `/pc` whose one argument is a binary blob holding the pitch-class
//! values in snapshot order, one byte per entry. An empty snapshot encodes to
//! a zero-length blob, not to a missing argument.

use vstd::prelude::*;

verus! {

/// The four bytes of `n` in big-endian order, for `0 <= n <= u32::MAX`.
pub open spec fn be_u32(n: int) -> Seq<u8> {
    seq![
        ((n / 0x1000000) % 0x100) as u8,
        ((n / 0x10000) % 0x100) as u8,
        ((n / 0x100) % 0x100) as u8,
        (n % 0x100) as u8,
    ]
}

/// How many null bytes bring a part of length `n` up to a multiple of four.
pub open spec fn blob_padding(n: int) -> int {
    if n % 4 == 0 {
        0
    } else {
        4 - n % 4
    }
}

/// The OSC wire frame for a message at address `/pc` with one blob argument:
/// the address bytes `/pc` with one null of padding, the type tag string `,b`
/// with two nulls of padding, the blob's length in big-endian, and the blob's
/// bytes padded with nulls to a multiple of four.
pub open spec fn osc_pc_frame(b: Seq<u8>) -> Seq<u8> {
    seq![0x2fu8, 0x70u8, 0x63u8, 0x00u8] + seq![0x2cu8, 0x62u8, 0x00u8, 0x00u8] + be_u32(
        b.len() as int,
    ) + b + Seq::new(blob_padding(b.len() as int) as nat, |i: int| 0u8)
}

/// The snapshot could not be encoded; the event's frame is dropped, the event
/// itself is still processed.
#[derive(Clone, Copy, Debug, PartialEq, Eq, Structural)]
pub enum EncodeError {
    SnapshotTooLarge,
}

/// Relies on rosc::encoder::encode: a message with one blob argument is laid
/// out as the null-padded address, the null-padded tag string ",b", then the
/// blob's big-endian length and its bytes padded to a multiple of four; for a
/// message, encoding into a byte vector cannot fail, so the result is
/// unwrapped.
#[verifier::external_body]
fn rosc_encode_pc(addr: &str, blob: &Vec<u8>) -> (r: Vec<u8>)
    requires
        addr@ == "/pc"@,
        blob@.len() <= 0xFFFF_FFFF,
    ensures
        r@ == osc_pc_frame(blob@),
{
    let packet = rosc::OscPacket::Message(rosc::OscMessage {
        addr: addr.to_string(),
        args: vec![rosc::OscType::Blob(blob.clone())],
    });
    rosc::encoder::encode(&packet).unwrap()
}

/// Encodes a snapshot of the held pitch classes as the OSC frame to send.
///
/// Succeeds exactly when the snapshot's length fits the blob's four-byte
/// length field; the frame is then the `/pc` message with the snapshot as its
/// one blob argument.
pub fn encode_pc_frame(snapshot: &Vec<u8>) -> (r: Result<Vec<u8>, EncodeError>)
    ensures
        snapshot@.len() <= 0xFFFF_FFFF ==> (r matches Ok(frame) && frame@ == osc_pc_frame(
            snapshot@,
        )),
        snapshot@.len() > 0xFFFF_FFFF ==> r == Result::<Vec<u8>, EncodeError>::Err(
            EncodeError::SnapshotTooLarge,
        ),
{
    if snapshot.len() <= 0xFFFF_FFFF_usize {
        Ok(rosc_encode_pc("/pc", snapshot))
    } else {
        Err(EncodeError::SnapshotTooLarge)
    }
}

} // verus!
