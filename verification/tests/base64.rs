use socks_hub::base64::{decode, encode};

#[test]
fn encode_known_vectors() {
    assert_eq!(encode(b""), b"".to_vec());
    assert_eq!(encode(b"f"), b"Zg==".to_vec());
    assert_eq!(encode(b"fo"), b"Zm8=".to_vec());
    assert_eq!(encode(b"foo"), b"Zm9v".to_vec());
    assert_eq!(encode(b"foob"), b"Zm9vYg==".to_vec());
    assert_eq!(encode(b"fooba"), b"Zm9vYmE=".to_vec());
    assert_eq!(encode(b"foobar"), b"Zm9vYmFy".to_vec());
    assert_eq!(encode(&[0xfb, 0xff, 0xbe]), b"+/++".to_vec());
    assert_eq!(encode(b"alice:secret"), b"YWxpY2U6c2VjcmV0".to_vec());
}

#[test]
fn decode_known_vectors() {
    assert_eq!(decode(b""), Some(b"".to_vec()));
    assert_eq!(decode(b"Zg=="), Some(b"f".to_vec()));
    assert_eq!(decode(b"Zm8="), Some(b"fo".to_vec()));
    assert_eq!(decode(b"Zm9v"), Some(b"foo".to_vec()));
    assert_eq!(decode(b"Zm9vYmFy"), Some(b"foobar".to_vec()));
    assert_eq!(decode(b"+/++"), Some(vec![0xfb, 0xff, 0xbe]));
}

#[test]
fn decode_refuses_what_is_not_canonical() {
    assert_eq!(decode(b"Zg"), None);
    assert_eq!(decode(b"Zg="), None);
    assert_eq!(decode(b"Zh=="), None);
    assert_eq!(decode(b"Zm9="), None);
    assert_eq!(decode(b"Zg==Zg=="), None);
    assert_eq!(decode(b"Z==="), None);
    assert_eq!(decode(b"===="), None);
    assert_eq!(decode(b"Zm9v "), None);
    assert_eq!(decode(b"Zm-v"), None);
    assert_eq!(decode(b"Zm=v"), None);
}

#[test]
fn decode_undoes_encode() {
    let mut data: Vec<u8> = Vec::new();
    for n in 0..=300u32 {
        let text = encode(&data);
        assert_eq!(text.len(), 4 * ((data.len() + 2) / 3));
        assert_eq!(decode(&text), Some(data.clone()));
        data.push((n * 37 % 256) as u8);
    }
}
