//! The frames of the key exchange, as bytes.
//!
//! A key request is sent under opcode `0x0c` and holds the content
//! identifier (20 bytes), the entity identifier (16 bytes, big-endian), the
//! tag of the request (4 bytes, big-endian) and two reserved zero bytes. A
//! response starts with the tag of the request that it answers. Under opcode
//! `0x0d` the key follows (16 bytes), under `0x0e` an error code (2 bytes).

use crate::audio_key::{AudioKey, AudioKeyError};
use crate::file_id::FileId;
use crate::spotify_id::{raw_bytes, SpotifyId};
use byteorder::{BigEndian, ByteOrder};
use vstd::prelude::*;

verus! {

/// Opcode of an outbound key request.
pub const KEY_REQUEST: u8 = 0x0c;

/// Opcode of an inbound response that carries the key.
pub const KEY_RESPONSE: u8 = 0x0d;

/// Opcode of an inbound response that reports a failure.
pub const KEY_ERROR: u8 = 0x0e;

/// The four bytes of `n`, most significant first.
pub open spec fn be_bytes_u32(n: u32) -> Seq<u8> {
    seq![
        (n / 0x100_0000) as u8,
        (n / 0x1_0000 % 0x100) as u8,
        (n / 0x100 % 0x100) as u8,
        (n % 0x100) as u8,
    ]
}

/// The two bytes of `n`, most significant first.
pub open spec fn be_bytes_u16(n: u16) -> Seq<u8> {
    seq![(n / 0x100) as u8, (n % 0x100) as u8]
}

/// The number that the first four bytes of `bytes` hold, most significant
/// byte first.
pub open spec fn be_u32(bytes: Seq<u8>) -> u32 {
    (bytes[0] * 0x100_0000 + bytes[1] * 0x1_0000 + bytes[2] * 0x100 + bytes[3]) as u32
}

/// Reading the bytes of a number, with whatever follows them, gives the
/// number: the tag that a response carries is the tag that its request was
/// sent with.
pub proof fn lemma_be_u32_round_trip(n: u32, rest: Seq<u8>)
    ensures
        be_u32(be_bytes_u32(n) + rest) == n,
{
}

/// Reads a big-endian `u32` from the front of `buf`.
///
/// This is `BigEndian::read_u32` of the `byteorder` crate, which takes the
/// first four bytes as the number's bytes from the most significant down and
/// panics on a shorter buffer.
#[verifier::external_body]
fn read_u32(buf: &[u8]) -> (n: u32)
    requires
        buf@.len() >= 4,
    ensures
        n == be_u32(buf@),
{
    BigEndian::read_u32(buf)
}

/// The four bytes of a `u32` in big-endian order.
///
/// This is `BigEndian::write_u32` of the `byteorder` crate on a buffer of
/// four bytes, which it fills with the number's bytes from the most
/// significant down.
#[verifier::external_body]
fn u32_bytes(n: u32) -> (bytes: [u8; 4])
    ensures
        bytes@ == be_bytes_u32(n),
{
    let mut buf = [0u8; 4];
    BigEndian::write_u32(&mut buf, n);
    buf
}

/// The two bytes of a `u16` in big-endian order.
///
/// This is `BigEndian::write_u16` of the `byteorder` crate on a buffer of two
/// bytes, which it fills with the high byte and then the low byte.
#[verifier::external_body]
fn u16_bytes(n: u16) -> (bytes: [u8; 2])
    ensures
        bytes@ == be_bytes_u16(n),
{
    let mut buf = [0u8; 2];
    BigEndian::write_u16(&mut buf, n);
    buf
}

/// A frame for the transport: an opcode and its payload.
#[derive(Debug, PartialEq, Eq)]
pub struct Packet {
    pub cmd: u8,
    pub data: Vec<u8>,
}

/// The payload of the request for the key of `file` in `track` under `tag`.
pub open spec fn key_request_payload(file: Seq<u8>, track: u128, tag: u32) -> Seq<u8> {
    file + raw_bytes(track) + be_bytes_u32(tag) + seq![0u8, 0u8]
}

/// Where each field of a key request lies: the content identifier at offset
/// 0, the entity identifier at 20, the tag at 36 and the reserved zero bytes
/// at 40, which makes 42 bytes. A response answers the request when it
/// carries the four bytes at offset 36.
pub proof fn lemma_key_request_layout(file: Seq<u8>, track: u128, tag: u32)
    requires
        file.len() == 20,
    ensures
        key_request_payload(file, track, tag).len() == 42,
        key_request_payload(file, track, tag).subrange(0, 20) == file,
        key_request_payload(file, track, tag).subrange(20, 36) == raw_bytes(track),
        key_request_payload(file, track, tag).subrange(36, 40) == be_bytes_u32(tag),
        key_request_payload(file, track, tag).subrange(40, 42) == seq![0u8, 0u8],
        be_u32(key_request_payload(file, track, tag).subrange(36, 42)) == tag,
{
    lemma_be_u32_round_trip(tag, seq![0u8, 0u8]);
}

/// Builds the frame that asks for the key of `file` in `track` under the tag
/// `seq`.
pub fn key_request(seq: u32, track: SpotifyId, file: FileId) -> (packet: Packet)
    ensures
        packet.cmd == KEY_REQUEST,
        packet.data@ == key_request_payload(file.0@, track@, seq),
        packet.data@.len() == 42,
{
    let mut data: Vec<u8> = Vec::new();
    data.extend_from_slice(file.0.as_slice());
    let track_bytes = track.to_raw();
    data.extend_from_slice(track_bytes.as_slice());
    let tag_bytes = u32_bytes(seq);
    data.extend_from_slice(tag_bytes.as_slice());
    let reserved = u16_bytes(0x0000);
    data.extend_from_slice(reserved.as_slice());
    Packet { cmd: KEY_REQUEST, data }
}

/// The tag of the request that a response answers: its first four bytes.
pub open spec fn response_tag(data: Seq<u8>) -> u32 {
    be_u32(data)
}

/// Reads the tag of the request that a response answers.
pub fn read_response_tag(data: &[u8]) -> (tag: u32)
    requires
        data@.len() >= 4,
    ensures
        tag == response_tag(data@),
{
    read_u32(data)
}

/// What a response means for the request that it answers.
#[derive(Debug, Copy, Clone, PartialEq, Eq)]
pub enum Resolution {
    /// The server sent the key.
    Key(AudioKey),
    /// The server refused. The two code bytes are for diagnostics only; the
    /// requester learns no more than that the request failed.
    Refused(u8, u8),
    /// The response is neither a key nor a refusal. The request is given up
    /// without an answer.
    Canceled,
}

/// A response under `cmd` is long enough for what its opcode holds.
pub open spec fn response_fits(cmd: u8, data: Seq<u8>) -> bool {
    &&& data.len() >= 4
    &&& cmd == KEY_RESPONSE ==> data.len() >= 20
    &&& cmd == KEY_ERROR ==> data.len() >= 6
}

/// `resolution` is what the response `data` under `cmd` means.
pub open spec fn is_resolution(cmd: u8, data: Seq<u8>, resolution: Resolution) -> bool {
    match resolution {
        Resolution::Key(key) => cmd == KEY_RESPONSE && key.0@ == data.subrange(4, 20),
        Resolution::Refused(first, second) => cmd == KEY_ERROR && first == data[4] && second
            == data[5],
        Resolution::Canceled => cmd != KEY_RESPONSE && cmd != KEY_ERROR,
    }
}

impl Resolution {
    /// What the requester is told: the key, the failure, or nothing at all.
    pub open spec fn answer(self) -> Option<Result<AudioKey, AudioKeyError>> {
        match self {
            Resolution::Key(key) => Some(Ok(key)),
            Resolution::Refused(_, _) => Some(Err(AudioKeyError)),
            Resolution::Canceled => None,
        }
    }

    /// Reads from a response what it means for its request: under opcode
    /// `0x0d` the key, under `0x0e` a refusal with its code, and under any
    /// other opcode that the request is given up.
    pub fn of_response(cmd: u8, data: &[u8]) -> (resolution: Resolution)
        requires
            response_fits(cmd, data@),
        ensures
            is_resolution(cmd, data@, resolution),
    {
        if cmd == KEY_RESPONSE {
            let mut key = [0u8; 16];
            for i in 0..16usize
                invariant
                    data@.len() >= 20,
                    forall|j: int| 0 <= j < i ==> key@[j] == data@[4 + j],
            {
                key[i] = data[4 + i];
            }
            assert(key@ =~= data@.subrange(4, 20));
            Resolution::Key(AudioKey(key))
        } else if cmd == KEY_ERROR {
            Resolution::Refused(data[4], data[5])
        } else {
            Resolution::Canceled
        }
    }

    /// What the requester is told.
    pub fn to_answer(&self) -> (answer: Option<Result<AudioKey, AudioKeyError>>)
        ensures
            answer == self.answer(),
    {
        match self {
            Resolution::Key(key) => Some(Ok(*key)),
            Resolution::Refused(_, _) => Some(Err(AudioKeyError)),
            Resolution::Canceled => None,
        }
    }
}

} // verus!
