use blockchain::digest;

fn ascending() -> [u8; 32] {
    let mut bytes = [0u8; 32];
    for (i, byte) in bytes.iter_mut().enumerate() {
        *byte = (i as u8) * 8 + 1;
    }
    bytes
}

#[test]
fn sha256_of_known_messages() {
    assert_eq!(
        digest::Hash::new(b"abc").to_hex(),
        "ba7816bf8f01cfea414140de5dae2223b00361a396177a9cb410ff61f20015ad"
    );
    assert_eq!(
        digest::Hash::new(b"").to_hex(),
        "e3b0c44298fc1c149afbf4c8996fb92427ae41e4649b934ca495991b7852b855"
    );
    assert_eq!(
        digest::Hash::new(b"first").to_hex(),
        "a7937b64b8caa58f03721bb6bacf5c78cb235febe0e70b1b84cd99541461a08e"
    );
}

#[test]
fn sha256_is_not_the_message() {
    let message = ascending();
    let hash = digest::Hash::new(&message);
    assert_ne!(hash.digest, message);
    assert_eq!(hash, digest::Hash::new(&message));
}

#[test]
fn hex_has_two_lowercase_digits_per_byte() {
    let mut bytes = [0u8; 32];
    bytes[0] = 0x00;
    bytes[1] = 0x0f;
    bytes[2] = 0xa0;
    bytes[3] = 0xff;
    bytes[4] = 0x9c;
    bytes[31] = 0x1b;
    let text = digest::Hash { digest: bytes }.to_hex();
    assert_eq!(text.len(), 64);
    assert_eq!(&text[..10], "000fa0ff9c");
    assert_eq!(&text[10..62], "0".repeat(52));
    assert_eq!(&text[62..], "1b");
}

#[test]
fn hashes_are_equal_when_their_bytes_are() {
    let one = digest::Hash { digest: ascending() };
    let same = digest::Hash { digest: ascending() };
    assert!(one == same);
    assert!(!(one != same));
    for position in [0usize, 1, 15, 31] {
        let mut bytes = ascending();
        bytes[position] ^= 0x01;
        let other = digest::Hash { digest: bytes };
        assert!(one != other);
        assert!(!(one == other));
    }
}

#[test]
fn digest_length_is_thirty_two() {
    assert_eq!(digest::DIGEST_LEN, 32);
    assert_eq!(digest::Hash::new(b"abc").digest.len(), digest::DIGEST_LEN);
    assert_eq!(digest::MAX_MESSAGE_LEN, 1u64 << 61);
}

#[test]
fn from_hex_reads_what_to_hex_writes() {
    let text = "a7937b64b8caa58f03721bb6bacf5c78cb235febe0e70b1b84cd99541461a08e";
    let hash = digest::Hash::from_hex(text).unwrap();
    assert_eq!(hash, digest::Hash::new(b"first"));
    assert_eq!(hash.to_hex(), text);
    assert_eq!(hash.digest[0], 0xa7);
    assert_eq!(hash.digest[1], 0x93);
    assert_eq!(hash.digest[31], 0x8e);
    let other = digest::Hash { digest: ascending() };
    assert_eq!(digest::Hash::from_hex(&other.to_hex()), Some(other));
}

#[test]
fn from_hex_refuses_other_texts() {
    let good = "a7937b64b8caa58f03721bb6bacf5c78cb235febe0e70b1b84cd99541461a08e";
    assert!(digest::Hash::from_hex(good).is_some());
    assert_eq!(digest::Hash::from_hex(""), None);
    assert_eq!(digest::Hash::from_hex(&good[..63]), None);
    assert_eq!(digest::Hash::from_hex(&good[..62]), None);
    assert_eq!(digest::Hash::from_hex(&format!("{}0", good)), None);
    assert_eq!(digest::Hash::from_hex(&good.to_uppercase()), None);
    assert_eq!(digest::Hash::from_hex(&good.replace('b', "g")), None);
    assert_eq!(digest::Hash::from_hex(&good.replace('7', " ")), None);
    assert_eq!(digest::Hash::from_hex(&good.replacen("a7", "é", 1)), None);
    assert_eq!(digest::Hash::from_hex(&format!("{}é", &good[..63])), None);
    assert_eq!(digest::Hash::from_hex(&format!("/{}", &good[..63])), None);
    assert_eq!(digest::Hash::from_hex(&format!(":{}", &good[..63])), None);
    assert_eq!(digest::Hash::from_hex(&format!("`{}", &good[..63])), None);
}
