use futures::sync::oneshot::{channel, Canceled};
use futures::Future;
use librespot::audio_key::{
    resolve, undelivered, AudioKey, AudioKeyError, AudioKeyFuture, AudioKeyManager,
};
use librespot::file_id::FileId;
use librespot::spotify_id::SpotifyId;
use librespot::wire::Resolution;

const KEY: [u8; 16] = [
    0x10, 0x11, 0x12, 0x13, 0x14, 0x15, 0x16, 0x17, 0x18, 0x19, 0x1a, 0x1b, 0x1c, 0x1d, 0x1e, 0x1f,
];

fn track() -> SpotifyId {
    SpotifyId::from_base62("4uLU6hMCjMI75M1A2tKUQC").unwrap()
}

fn file() -> FileId {
    let mut bytes = [0u8; 20];
    for (i, b) in bytes.iter_mut().enumerate() {
        *b = 0x40 + i as u8;
    }
    FileId(bytes)
}

fn success(tag: u32, key: [u8; 16]) -> Vec<u8> {
    let mut data = tag.to_be_bytes().to_vec();
    data.extend_from_slice(&key);
    data
}

fn failure(tag: u32, first: u8, second: u8) -> Vec<u8> {
    let mut data = tag.to_be_bytes().to_vec();
    data.push(first);
    data.push(second);
    data
}

#[test]
fn request_sends_the_expected_frame() {
    let mut manager = AudioKeyManager::new();
    let (_future, packet) = manager.request(track(), file());
    assert_eq!(packet.cmd, 0x0c);
    let mut expected = file().0.to_vec();
    expected.extend_from_slice(&track().to_raw());
    expected.extend_from_slice(&[0, 0, 0, 0]);
    expected.extend_from_slice(&[0, 0]);
    assert_eq!(packet.data, expected);

    let (_second, packet) = manager.request(track(), file());
    assert_eq!(&packet.data[36..40], &[0u8, 0, 0, 1][..]);
}

#[test]
fn end_to_end_success() {
    let mut manager = AudioKeyManager::new();
    let (mut future, packet) = manager.request(track(), file());
    assert_eq!(future.poll(), Ok(None));
    let mut tag = [0u8; 4];
    tag.copy_from_slice(&packet.data[36..40]);
    let tag = u32::from_be_bytes(tag);
    assert!(manager.is_pending(tag));

    let resolution = manager.dispatch(0x0d, success(tag, KEY));
    assert_eq!(resolution, Some(Resolution::Key(AudioKey(KEY))));
    assert!(!manager.is_pending(tag));
    assert_eq!(future.poll(), Ok(Some(AudioKey(KEY))));
}

#[test]
fn end_to_end_failure() {
    let mut manager = AudioKeyManager::new();
    let (mut future, _packet) = manager.request(track(), file());
    let resolution = manager.dispatch(0x0e, failure(0, 0x01, 0x02));
    assert_eq!(resolution, Some(Resolution::Refused(0x01, 0x02)));
    assert_eq!(future.poll(), Err(AudioKeyError));
    assert!(!manager.is_pending(0));
}

#[test]
fn waiting_as_a_future_gives_the_key() {
    let mut manager = AudioKeyManager::new();
    let (future, _packet) = manager.request(track(), file());
    manager.dispatch(0x0d, success(0, KEY));
    assert_eq!(future.into_receiver().wait(), Ok(Ok(AudioKey(KEY))));
}

#[test]
fn waiting_as_a_future_gives_the_failure() {
    let mut manager = AudioKeyManager::new();
    let (future, _packet) = manager.request(track(), file());
    manager.dispatch(0x0e, failure(0, 0x01, 0x02));
    assert_eq!(future.into_receiver().wait(), Ok(Err(AudioKeyError)));
}

#[test]
fn unknown_tag_is_ignored() {
    let mut manager = AudioKeyManager::new();
    let (mut first, _) = manager.request(track(), file());
    let (mut second, _) = manager.request(track(), file());
    assert_eq!(manager.dispatch(0x0d, success(7, KEY)), None);
    assert_eq!(manager.dispatch(0x0e, failure(0xffff_ffff, 1, 2)), None);
    assert!(manager.is_pending(0));
    assert!(manager.is_pending(1));
    assert!(!manager.is_pending(7));
    assert_eq!(first.poll(), Ok(None));
    assert_eq!(second.poll(), Ok(None));
    assert_eq!(manager.dispatch(0x0d, success(1, KEY)), Some(Resolution::Key(AudioKey(KEY))));
    assert_eq!(second.poll(), Ok(Some(AudioKey(KEY))));
    assert_eq!(first.poll(), Ok(None));
}

#[test]
fn unknown_tag_may_come_with_a_short_payload() {
    let mut manager = AudioKeyManager::new();
    assert_eq!(manager.dispatch(0x0d, vec![0, 0, 0, 9]), None);
    assert_eq!(manager.dispatch(0x0e, vec![0, 0, 0, 9, 1]), None);
}

#[test]
fn second_response_for_a_tag_is_ignored() {
    let mut manager = AudioKeyManager::new();
    let (mut future, _) = manager.request(track(), file());
    assert!(manager.dispatch(0x0d, success(0, KEY)).is_some());
    assert_eq!(manager.dispatch(0x0d, success(0, [0u8; 16])), None);
    assert_eq!(manager.dispatch(0x0e, failure(0, 1, 2)), None);
    assert_eq!(future.poll(), Ok(Some(AudioKey(KEY))));
}

#[test]
fn responses_may_come_in_any_order() {
    let mut manager = AudioKeyManager::new();
    let mut futures = Vec::new();
    for _ in 0..5 {
        futures.push(manager.request(track(), file()).0);
    }
    for tag in [3u32, 0, 4, 1, 2] {
        let mut key = KEY;
        key[0] = tag as u8;
        assert!(manager.dispatch(0x0d, success(tag, key)).is_some());
    }
    for (tag, future) in futures.iter_mut().enumerate() {
        let mut key = KEY;
        key[0] = tag as u8;
        assert_eq!(future.poll(), Ok(Some(AudioKey(key))));
    }
}

#[test]
fn requests_get_distinct_tags() {
    let mut manager = AudioKeyManager::new();
    let mut tags = Vec::new();
    let mut futures = Vec::new();
    for _ in 0..200 {
        let (future, packet) = manager.request(track(), file());
        let mut tag = [0u8; 4];
        tag.copy_from_slice(&packet.data[36..40]);
        tags.push(u32::from_be_bytes(tag));
        futures.push(future);
    }
    for (i, tag) in tags.iter().enumerate() {
        assert_eq!(*tag, i as u32);
        assert!(manager.is_pending(*tag));
    }
    assert!(!manager.is_pending(200));
}

#[test]
fn register_hands_out_the_tags_in_order() {
    let mut manager = AudioKeyManager::new();
    let (first, _a) = manager.register();
    let (second, _b) = manager.register();
    let (third, _c) = manager.register();
    assert_eq!((first, second, third), (0, 1, 2));
    assert!(manager.is_pending(0) && manager.is_pending(1) && manager.is_pending(2));
}

#[test]
fn unanswered_request_stays_in_the_table() {
    let mut manager = AudioKeyManager::new();
    let (mut lonely, _) = manager.request(track(), file());
    for round in 0..50u32 {
        let (mut other, _) = manager.request(track(), file());
        assert!(manager.dispatch(0x0d, success(round + 1, KEY)).is_some());
        assert_eq!(other.poll(), Ok(Some(AudioKey(KEY))));
        assert_eq!(manager.dispatch(0x0e, failure(1000 + round, 0, 0)), None);
        assert!(manager.is_pending(0));
        assert_eq!(lonely.poll(), Ok(None));
    }
}

#[test]
fn unmatched_opcode_cancels_the_request() {
    let mut manager = AudioKeyManager::new();
    let (mut future, _) = manager.request(track(), file());
    assert_eq!(manager.dispatch(0x42, vec![0, 0, 0, 0]), Some(Resolution::Canceled));
    assert!(!manager.is_pending(0));
    assert_eq!(future.poll(), Err(AudioKeyError));
}

#[test]
fn dropping_the_engine_cancels_what_waits() {
    let mut manager = AudioKeyManager::new();
    let (mut future, _) = manager.request(track(), file());
    drop(manager);
    assert_eq!(future.poll(), Err(AudioKeyError));
}

#[test]
fn claim_and_resolve_in_two_steps() {
    let mut manager = AudioKeyManager::new();
    let (tag, mut future) = manager.register();
    assert!(manager.claim(tag + 1).is_none());
    let sender = manager.claim(tag).unwrap();
    assert!(!manager.is_pending(tag));
    assert!(manager.claim(tag).is_none());
    assert_eq!(future.poll(), Ok(None));
    assert_eq!(resolve(sender, Resolution::Key(AudioKey(KEY))), None);
    assert_eq!(future.poll(), Ok(Some(AudioKey(KEY))));
}

#[test]
fn answer_comes_back_when_nobody_waits() {
    let mut manager = AudioKeyManager::new();
    let (tag, future) = manager.register();
    drop(future);
    let sender = manager.claim(tag).unwrap();
    assert_eq!(
        resolve(sender, Resolution::Key(AudioKey(KEY))),
        Some(Ok(AudioKey(KEY)))
    );

    let (tag, future) = manager.register();
    drop(future);
    let sender = manager.claim(tag).unwrap();
    assert_eq!(
        resolve(sender, Resolution::Refused(1, 2)),
        Some(Err(AudioKeyError))
    );

    let (tag, future) = manager.register();
    drop(future);
    assert_eq!(
        manager.dispatch(0x0d, success(tag, KEY)),
        Some(Resolution::Key(AudioKey(KEY)))
    );
    assert!(!manager.is_pending(tag));
}

#[test]
fn resolve_with_a_refusal_or_nothing() {
    let (sender, receiver) = channel();
    assert_eq!(resolve(sender, Resolution::Refused(3, 4)), None);
    assert_eq!(receiver.wait(), Ok(Err(AudioKeyError)));
    let (sender, receiver) = channel();
    assert_eq!(resolve(sender, Resolution::Canceled), None);
    assert_eq!(receiver.wait(), Err(Canceled));
}

#[test]
fn outcome_of_what_the_channel_reports() {
    assert_eq!(AudioKeyFuture::outcome(Ok(Some(Ok(5u8)))), Ok(Some(5u8)));
    assert_eq!(
        AudioKeyFuture::<u8>::outcome(Ok(Some(Err(AudioKeyError)))),
        Err(AudioKeyError)
    );
    assert_eq!(AudioKeyFuture::<u8>::outcome(Ok(None)), Ok(None));
    assert_eq!(AudioKeyFuture::<u8>::outcome(Err(Canceled)), Err(AudioKeyError));
}

#[test]
fn audio_key_equality_is_bytewise() {
    let mut other = KEY;
    other[15] ^= 1;
    assert_eq!(AudioKey(KEY), AudioKey(KEY));
    assert_ne!(AudioKey(KEY), AudioKey(other));
}

#[test]
fn future_resolves_at_most_once() {
    let mut manager = AudioKeyManager::new();
    let (mut future, _) = manager.request(track(), file());
    assert_eq!(future.poll(), Ok(None));
    assert_eq!(future.poll(), Ok(None));
    manager.dispatch(0x0d, success(0, KEY));
    assert_eq!(future.poll(), Ok(Some(AudioKey(KEY))));
    assert_eq!(future.poll(), Err(AudioKeyError));
    assert_eq!(future.poll(), Err(AudioKeyError));

    let (mut refused, _) = manager.request(track(), file());
    manager.dispatch(0x0e, failure(1, 0, 0));
    assert_eq!(refused.poll(), Err(AudioKeyError));
    assert_eq!(refused.poll(), Err(AudioKeyError));

    let (mut given_up, _) = manager.request(track(), file());
    manager.dispatch(0x7f, vec![0, 0, 0, 2]);
    assert_eq!(given_up.poll(), Err(AudioKeyError));
    assert_eq!(given_up.poll(), Err(AudioKeyError));
}

#[test]
fn what_is_left_of_an_answer() {
    assert_eq!(undelivered(Ok(())), None);
    assert_eq!(undelivered(Err(Ok(AudioKey(KEY)))), Some(Ok(AudioKey(KEY))));
    assert_eq!(undelivered(Err(Err(AudioKeyError))), Some(Err(AudioKeyError)));
}
