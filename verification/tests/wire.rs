use librespot::audio_key::{AudioKey, AudioKeyError};
use librespot::file_id::FileId;
use librespot::spotify_id::SpotifyId;
use librespot::wire::{
    key_request, read_response_tag, Packet, Resolution, KEY_ERROR, KEY_REQUEST, KEY_RESPONSE,
};

fn sample_file() -> FileId {
    let mut bytes = [0u8; 20];
    for (i, b) in bytes.iter_mut().enumerate() {
        *b = 0xa0 + i as u8;
    }
    FileId(bytes)
}

fn sample_track() -> SpotifyId {
    SpotifyId::from_base16("0102030405060708090a0b0c0d0e0f10").unwrap()
}

#[test]
fn opcodes() {
    assert_eq!(KEY_REQUEST, 0x0c);
    assert_eq!(KEY_RESPONSE, 0x0d);
    assert_eq!(KEY_ERROR, 0x0e);
}

#[test]
fn key_request_layout() {
    let Packet { cmd, data } = key_request(0x1122_3344, sample_track(), sample_file());
    assert_eq!(cmd, 0x0c);
    assert_eq!(data.len(), 42);
    assert_eq!(&data[0..20], &sample_file().0[..]);
    assert_eq!(
        &data[20..36],
        &[1u8, 2, 3, 4, 5, 6, 7, 8, 9, 10, 11, 12, 13, 14, 15, 16][..]
    );
    assert_eq!(&data[36..40], &[0x11u8, 0x22, 0x33, 0x44][..]);
    assert_eq!(&data[40..42], &[0u8, 0][..]);
}

#[test]
fn key_request_tag_is_big_endian() {
    let low = key_request(1, sample_track(), sample_file());
    assert_eq!(&low.data[36..40], &[0u8, 0, 0, 1][..]);
    let high = key_request(u32::MAX - 1, sample_track(), sample_file());
    assert_eq!(&high.data[36..40], &[0xffu8, 0xff, 0xff, 0xfe][..]);
}

#[test]
fn response_tag_is_read_big_endian() {
    assert_eq!(read_response_tag(&[0, 0, 0, 1]), 1);
    assert_eq!(read_response_tag(&[0x11, 0x22, 0x33, 0x44, 9, 9]), 0x1122_3344);
    assert_eq!(read_response_tag(&[0xff, 0, 0, 0, 7]), 0xff00_0000);
}

#[test]
fn response_tag_matches_request_tag() {
    for tag in [0u32, 1, 255, 256, 0x0102_0304, u32::MAX] {
        let packet = key_request(tag, sample_track(), sample_file());
        assert_eq!(read_response_tag(&packet.data[36..]), tag);
    }
}

#[test]
fn success_response_carries_the_key() {
    let mut data = vec![0u8, 0, 0, 5];
    let key: Vec<u8> = (1..=16).collect();
    data.extend_from_slice(&key);
    data.push(0xee);
    let resolution = Resolution::of_response(0x0d, &data);
    assert_eq!(
        resolution,
        Resolution::Key(AudioKey([1, 2, 3, 4, 5, 6, 7, 8, 9, 10, 11, 12, 13, 14, 15, 16]))
    );
    assert_eq!(
        resolution.to_answer(),
        Some(Ok(AudioKey([1, 2, 3, 4, 5, 6, 7, 8, 9, 10, 11, 12, 13, 14, 15, 16])))
    );
}

#[test]
fn failure_response_carries_its_code() {
    let resolution = Resolution::of_response(0x0e, &[0, 0, 0, 5, 0x01, 0x02]);
    assert_eq!(resolution, Resolution::Refused(0x01, 0x02));
    assert_eq!(resolution.to_answer(), Some(Err(AudioKeyError)));
}

#[test]
fn other_opcodes_give_the_request_up() {
    for cmd in [0x00u8, 0x0c, 0x0f, 0xff] {
        let resolution = Resolution::of_response(cmd, &[0, 0, 0, 5]);
        assert_eq!(resolution, Resolution::Canceled);
        assert_eq!(resolution.to_answer(), None);
    }
}
