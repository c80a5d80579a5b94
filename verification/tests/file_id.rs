use librespot::file_id::FileId;
use std::cmp::Ordering;

fn file(first: u8, last: u8) -> FileId {
    let mut bytes = [0u8; 20];
    bytes[0] = first;
    bytes[19] = last;
    FileId(bytes)
}

#[test]
fn file_id_hex_is_forty_lowercase_characters() {
    let mut bytes = [0u8; 20];
    for (i, b) in bytes.iter_mut().enumerate() {
        *b = (i as u8) * 13 + 7;
    }
    let text = FileId(bytes).to_base16();
    assert_eq!(text.len(), 40);
    assert_eq!(text, "0714212e3b4855626f7c8996a3b0bdcad7e4f1fe");
}

#[test]
fn file_id_hex_pads_each_byte() {
    assert_eq!(FileId([0u8; 20]).to_base16(), "0".repeat(40));
    assert_eq!(FileId([0xffu8; 20]).to_base16(), "f".repeat(40));
    assert_eq!(
        file(0x0a, 0xb0).to_base16(),
        format!("0a{}b0", "0".repeat(36))
    );
}

#[test]
fn file_id_order_is_lexicographic() {
    for a0 in [0u8, 1, 127, 128, 255] {
        for a1 in [0u8, 1, 200, 255] {
            for b0 in [0u8, 1, 127, 128, 255] {
                for b1 in [0u8, 1, 200, 255] {
                    let a = file(a0, a1);
                    let b = file(b0, b1);
                    let expected = a.0.as_slice().cmp(b.0.as_slice());
                    assert_eq!(a.partial_cmp(&b), Some(expected));
                    assert_eq!(a.cmp(&b), expected);
                    assert_eq!(a < b, expected == Ordering::Less);
                    assert_eq!(a == b, expected == Ordering::Equal);
                }
            }
        }
    }
}

#[test]
fn file_id_first_difference_decides() {
    assert_eq!(file(1, 255).partial_cmp(&file(2, 0)), Some(Ordering::Less));
    assert_eq!(file(2, 0).partial_cmp(&file(1, 255)), Some(Ordering::Greater));
    assert_eq!(file(3, 4).partial_cmp(&file(3, 5)), Some(Ordering::Less));
    assert_eq!(file(3, 4).partial_cmp(&file(3, 4)), Some(Ordering::Equal));
    assert_eq!(file(0x7f, 0).partial_cmp(&file(0x80, 0)), Some(Ordering::Less));
}

#[test]
fn file_id_equality_is_bytewise() {
    assert_eq!(file(9, 9), file(9, 9));
    assert_ne!(file(9, 9), file(9, 8));
    assert_ne!(file(9, 9), file(8, 9));
}
