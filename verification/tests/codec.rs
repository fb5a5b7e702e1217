use gifp4::codec::{decode, encode};
use gifp4::Id;

#[test]
fn encode_zero_id_is_all_a() {
    let id: Id = [0, 0, 0, 0, 0, 0];
    assert_eq!(encode(&id), "AAAAAAAA");
}

#[test]
fn encode_is_eight_chars() {
    let ids: [Id; 4] = [
        [0, 0, 0, 0, 0, 0],
        [255, 255, 255, 255, 255, 255],
        [1, 2, 3, 4, 5, 6],
        [250, 128, 63, 7, 99, 200],
    ];
    for id in ids {
        let token = encode(&id);
        assert_eq!(token.chars().count(), 8);
        assert_eq!(token.len(), 8);
    }
}

#[test]
fn round_trip_many_ids() {
    let ids: [Id; 6] = [
        [0, 0, 0, 0, 0, 0],
        [255, 255, 255, 255, 255, 255],
        [1, 2, 3, 4, 5, 6],
        [250, 128, 63, 7, 99, 200],
        [0, 0, 0, 0, 0, 1],
        [128, 0, 0, 0, 0, 0],
    ];
    for id in ids {
        assert_eq!(decode(&encode(&id)), Some(id));
    }
}

#[test]
fn decode_zero_token() {
    assert_eq!(decode("AAAAAAAA"), Some([0, 0, 0, 0, 0, 0]));
}

#[test]
fn decode_rejects_wrong_length() {
    assert_eq!(decode(""), None);
    assert_eq!(decode("A"), None);
    assert_eq!(decode("AAAA"), None);
    assert_eq!(decode("AAAAAAA"), None);
    assert_eq!(decode("AAAAAAAAA"), None);
    assert_eq!(decode("AAAAAAAAAAAA"), None);
}

#[test]
fn decode_rejects_characters_outside_alphabet() {
    assert_eq!(decode("AAAAAAA+"), None);
    assert_eq!(decode("AAAAAAA/"), None);
    assert_eq!(decode("AAAAAAA="), None);
    assert_eq!(decode("AAAA AAA"), None);
    assert_eq!(decode("AAAAAAA."), None);
    assert_eq!(decode("AAAAAAA\u{e9}"), None);
}

#[test]
fn decode_accepts_whole_alphabet() {
    assert!(decode("AZaz09-_").is_some());
}

#[test]
fn encode_matches_reference_encoder() {
    let ids: [Id; 5] = [
        [0, 0, 0, 0, 0, 0],
        [255, 255, 255, 255, 255, 255],
        [1, 2, 3, 4, 5, 6],
        [250, 128, 63, 7, 99, 200],
        [17, 34, 51, 68, 85, 102],
    ];
    for id in ids {
        let reference = base64::encode_config(id, base64::URL_SAFE_NO_PAD);
        assert_eq!(encode(&id), reference);
    }
}

#[test]
fn decode_matches_reference_decoder() {
    let tokens = ["AZaz09-_", "AAAAAAAB", "zzzzzzzz", "________", "--------"];
    for token in tokens {
        let reference = base64::decode_config(token, base64::URL_SAFE_NO_PAD).unwrap();
        assert_eq!(decode(token).map(|id| id.to_vec()), Some(reference));
    }
}
