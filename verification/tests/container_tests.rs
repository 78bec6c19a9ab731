use pngme::args::Input;
use pngme::chunk::Chunk;
use pngme::chunk_type::ChunkType;
use pngme::commands::{embed, extract, list, strip};
use pngme::error::PngmeError;
use pngme::png::{signature_bytes, Png};

fn chunk_from(tag: &str, payload: &[u8]) -> Chunk {
    Chunk::new(ChunkType::from_str(tag).unwrap(), payload.to_vec())
}

#[test]
fn chunk_serialize_parse_round_trip() {
    let chunk = chunk_from("RuSt", b"arbitrary payload bytes \x00\x01\x02");
    let bytes = chunk.as_bytes();
    let back = Chunk::try_from(bytes.as_ref()).unwrap();
    assert_eq!(back.chunk_type().bytes(), chunk.chunk_type().bytes());
    assert_eq!(back.data(), chunk.data());
    assert_eq!(back.crc(), chunk.crc());
}

#[test]
fn chunk_parse_rejects_any_payload_bit_flip() {
    let chunk = chunk_from("RuSt", b"payload");
    let bytes = chunk.as_bytes();
    // flip every bit of the tag and payload region in turn, keeping the
    // stored checksum: parse must reject each corrupted serialization
    for byte_index in 4..bytes.len() - 4 {
        for bit in 0..8 {
            let mut corrupted = bytes.clone();
            corrupted[byte_index] ^= 1 << bit;
            assert!(Chunk::try_from(corrupted.as_ref()).is_err());
        }
    }
}

#[test]
fn chunk_checksum_mismatch_is_integrity_error() {
    let chunk = chunk_from("RuSt", b"This is where your secret message will be!");
    assert_eq!(chunk.crc(), 2882656334);
    let mut bytes = chunk.as_bytes();
    // nudge the checksum's low byte by one
    let last = bytes.len() - 1;
    bytes[last] = bytes[last].wrapping_add(1);
    assert!(matches!(
        Chunk::try_from(bytes.as_ref()),
        Err(PngmeError::Integrity)
    ));
}

#[test]
fn container_round_trip_preserves_chunks() {
    let chunks = vec![
        chunk_from("IHDR", b"not a real header"),
        chunk_from("teXt", b"first message"),
        chunk_from("teXt", b"second message"),
    ];
    let expected: Vec<(Vec<u8>, Vec<u8>)> = chunks
        .iter()
        .map(|c| (c.chunk_type().bytes().to_vec(), c.data().to_vec()))
        .collect();

    let png = Png::from_chunks(chunks);
    let bytes = png.as_bytes();
    let back = Png::try_from(bytes.as_ref()).unwrap();

    let actual: Vec<(Vec<u8>, Vec<u8>)> = back
        .chunks()
        .iter()
        .map(|c| (c.chunk_type().bytes().to_vec(), c.data().to_vec()))
        .collect();
    assert_eq!(actual, expected);
}

#[test]
fn parse_rejects_short_or_bad_signature() {
    // shorter than 8 bytes
    assert!(matches!(
        Png::try_from(&[137u8, 80, 78][..]),
        Err(PngmeError::Format)
    ));
    // 8 bytes that are not the fixed signature
    let wrong = [1u8, 2, 3, 4, 5, 6, 7, 8];
    assert!(matches!(
        Png::try_from(&wrong[..]),
        Err(PngmeError::Format)
    ));
    // a valid signature alone is a legal, empty container
    let sig = signature_bytes();
    let png = Png::try_from(sig.as_ref()).unwrap();
    assert_eq!(png.chunks().len(), 0);
}

#[test]
fn first_match_semantics_on_duplicate_tags() {
    let chunks = vec![
        chunk_from("teXt", b"first"),
        chunk_from("teXt", b"second"),
    ];
    let mut png = Png::from_chunks(chunks);

    let found = png.chunk_by_type("teXt").unwrap();
    assert_eq!(found.data(), b"first");

    let bytes = png.as_bytes();
    let extracted = extract(bytes.as_ref(), "teXt", None).unwrap().unwrap();
    assert_eq!(extracted, "first");

    let removed = png.remove_first_chunk("teXt").unwrap();
    assert_eq!(removed.data(), b"first");
    assert_eq!(png.chunks().len(), 1);
    assert_eq!(png.chunks()[0].data(), b"second");
}

#[test]
fn embed_then_extract_plain_message() {
    let sig = signature_bytes();
    let out = embed(sig.as_ref(), "teXt", "hello", None).unwrap();

    let png = Png::try_from(out.as_ref()).unwrap();
    assert_eq!(png.chunks().len(), 1);

    let found = extract(out.as_ref(), "teXt", None).unwrap();
    assert_eq!(found, Some(String::from("hello")));

    let missing = extract(out.as_ref(), "ruSt", None).unwrap();
    assert_eq!(missing, None);
}

#[test]
fn embed_then_extract_with_password() {
    let sig = signature_bytes();
    let out = embed(sig.as_ref(), "seCt", "meet me at noon", Some("p4ssw0rd")).unwrap();

    let found = extract(out.as_ref(), "seCt", Some("p4ssw0rd")).unwrap();
    assert_eq!(found, Some(String::from("meet me at noon")));

    // the stored payload is not the message itself
    let plain = extract(out.as_ref(), "seCt", None).unwrap().unwrap();
    assert_ne!(plain, "meet me at noon");

    // a wrong password is rejected as a crypto error
    assert!(matches!(
        extract(out.as_ref(), "seCt", Some("other")),
        Err(PngmeError::Crypto)
    ));
}

#[test]
fn strip_removes_first_only() {
    let chunks = vec![
        chunk_from("teXt", b"first"),
        chunk_from("teXt", b"second"),
    ];
    let bytes = Png::from_chunks(chunks).as_bytes();

    let stripped = strip(bytes.as_ref(), "teXt").unwrap();
    let png = Png::try_from(stripped.as_ref()).unwrap();
    assert_eq!(png.chunks().len(), 1);
    assert_eq!(png.chunks()[0].data(), b"second");

    assert!(matches!(
        strip(bytes.as_ref(), "noNe"),
        Err(PngmeError::NotFound)
    ));
}

#[test]
fn list_renders_chunks_in_order() {
    let chunks = vec![
        chunk_from("teXt", b"one"),
        chunk_from("ruSt", &[0xff, 0xfe]),
        chunk_from("teXt", b"three"),
    ];
    let bytes = Png::from_chunks(chunks).as_bytes();

    let texts = list(bytes.as_ref()).unwrap();
    // a payload that is not UTF-8 renders as empty text without aborting
    assert_eq!(texts, vec!["one", "", "three"]);

    let empty = list(signature_bytes().as_ref()).unwrap();
    assert!(empty.is_empty());
}

#[test]
fn extract_of_non_text_payload_is_encoding_error() {
    let bytes = Png::from_chunks(vec![chunk_from("ruSt", &[0xff, 0xfe])]).as_bytes();
    assert!(matches!(
        extract(bytes.as_ref(), "ruSt", None),
        Err(PngmeError::Encoding)
    ));
}

#[test]
fn embed_rejects_bad_tag() {
    let sig = signature_bytes();
    assert!(matches!(
        embed(sig.as_ref(), "Ru1t", "hello", None),
        Err(PngmeError::Format)
    ));
    assert!(matches!(
        embed(sig.as_ref(), "toolong", "hello", None),
        Err(PngmeError::Format)
    ));
}

#[test]
fn chunk_type_properties_of_cases() {
    // bit 5 of each byte drives one property apiece
    let t = ChunkType::from_str("bLob").unwrap();
    assert!(!t.is_critical());
    assert!(t.is_public());
    assert!(!t.is_reserved_bit_valid());
    assert!(t.is_safe_to_copy());
    assert!(!t.is_valid());

    let u = ChunkType::from_str("IHDR").unwrap();
    assert!(u.is_critical());
    assert!(u.is_public());
    assert!(u.is_reserved_bit_valid());
    assert!(!u.is_safe_to_copy());
    assert!(u.is_valid());
}

#[test]
fn input_from_args_tags_the_source() {
    match Input::from_args(String::from("a.png"), false) {
        Input::FilePath(p) => assert_eq!(p, "a.png"),
        Input::Url(_) => panic!("expected a file path"),
    }
    match Input::from_args(String::from("http://host/a.png"), true) {
        Input::Url(u) => assert_eq!(u, "http://host/a.png"),
        Input::FilePath(_) => panic!("expected a url"),
    }
}
