use base64::Engine;
use thumbhash_lambda::encoding::encode_unpadded;
use thumbhash_lambda::encoding::restore_padding;
use thumbhash_lambda::encoding::strip_padding;

#[test]
fn encode_empty_is_empty() {
    assert_eq!(encode_unpadded(&[]), "");
}

#[test]
fn encode_known_values() {
    assert_eq!(encode_unpadded(b"Man"), "TWFu");
    assert_eq!(encode_unpadded(b"Ma"), "TWE");
    assert_eq!(encode_unpadded(b"M"), "TQ");
    assert_eq!(encode_unpadded(&[255, 255, 255]), "////");
    assert_eq!(encode_unpadded(&[0]), "AA");
    assert_eq!(encode_unpadded(&[251, 239]), "++8");
}

#[test]
fn strip_removes_only_trailing_padding() {
    assert_eq!(strip_padding("TWE="), "TWE");
    assert_eq!(strip_padding("TQ=="), "TQ");
    assert_eq!(strip_padding("TWFu"), "TWFu");
    assert_eq!(strip_padding("a=b=="), "a=b");
    assert_eq!(strip_padding("==="), "");
    assert_eq!(strip_padding(""), "");
}

#[test]
fn restore_pads_to_multiple_of_four() {
    assert_eq!(restore_padding("TWE"), "TWE=");
    assert_eq!(restore_padding("TQ"), "TQ==");
    assert_eq!(restore_padding("TWFu"), "TWFu");
    assert_eq!(restore_padding(""), "");
}

#[test]
fn round_trip_through_reference_decoder() {
    let payloads: Vec<Vec<u8>> = vec![
        vec![],
        vec![0],
        vec![1, 2],
        vec![1, 2, 3],
        (0u8..=255).collect(),
    ];
    for bytes in payloads {
        let unpadded = encode_unpadded(&bytes);
        assert!(!unpadded.contains('='));
        let padded = restore_padding(&unpadded);
        let decoded = base64::engine::general_purpose::STANDARD
            .decode(padded.as_bytes())
            .unwrap();
        assert_eq!(decoded, bytes);
        assert_eq!(
            base64::engine::general_purpose::STANDARD.encode(&decoded),
            padded
        );
    }
}
