use shopware_redis_cli_helper::value::{decode, hex_dump, Encoding};
use std::io::Write;

#[test]
fn plain_text_is_shown_as_it_is() {
    let d = decode(&b"hello\n".to_vec(), 100);
    assert_eq!(d.encoding, Encoding::Plain);
    assert_eq!(d.stream_offset, None);
    assert!(!d.is_binary);
    assert_eq!(d.text, "hello\n");
}

#[test]
fn zstd_is_recognised() {
    let z = zstd::stream::encode_all(&b"some compressed words"[..], 3).unwrap();
    let mut wrapped = b"head:".to_vec();
    wrapped.extend(z);
    wrapped.extend_from_slice(b"tail");
    let d = decode(&wrapped, 100);
    assert_eq!(d.encoding, Encoding::Zstd);
    assert_eq!(d.stream_offset, Some(5));
    assert_eq!(d.text, "some compressed words");
}

#[test]
fn broken_streams_are_left_alone() {
    let d = decode(&vec![0x1f, 0x8b, 1, 2, 3], 100);
    assert_eq!(d.encoding, Encoding::Plain);
    assert!(d.is_binary);
    let d = decode(&b"x\x9c is no stream".to_vec(), 100);
    assert_eq!(d.encoding, Encoding::Plain);
    let d = decode(&vec![0x78], 100);
    assert_eq!(d.encoding, Encoding::Plain);
    assert_eq!(d.text, "x");
    assert_eq!(decode(&vec![], 100).text, "");
}

#[test]
fn first_stream_wins() {
    let gz = |b: &[u8]| {
        let mut e = flate2::write::GzEncoder::new(Vec::new(), flate2::Compression::default());
        e.write_all(b).unwrap();
        e.finish().unwrap()
    };
    let mut both = b"..".to_vec();
    both.extend(gz(b"first"));
    both.extend(gz(b"second"));
    let d = decode(&both, 100);
    assert_eq!(d.stream_offset, Some(2));
    assert_eq!(d.text, "first");
}

#[test]
fn caps_cut_text_and_hex() {
    let d = decode(&b"abcdefghij".to_vec(), 4);
    assert_eq!(d.text, "abcd\n… (truncated)");
    assert!(d.hex.starts_with("00000000  61 62 63 64 "));
    assert!(!d.hex.contains("65"));
}

#[test]
fn hex_dump_has_offset_bytes_and_ascii() {
    assert_eq!(hex_dump(&vec![]), "");
    let all: Vec<u8> = (0x3a..0x4c).collect();
    assert_eq!(
        hex_dump(&all),
        "00000000  3a 3b 3c 3d 3e 3f 40 41 42 43 44 45 46 47 48 49   :;<=>?@ABCDEFGHI\n\
         00000010  4a 4b                                             JK\n"
    );
    assert!(hex_dump(&vec![0xde, 0xad, 0xbe, 0xef]).contains("de ad be ef"));
    assert!(hex_dump(&vec![0x00, 0x7f, 0x7e]).ends_with("..~\n"));
}

#[test]
fn encodings_have_names() {
    assert_eq!(Encoding::Gzip.label(), "gzip");
    assert_eq!(Encoding::Zlib.label(), "zlib/deflate");
    assert_eq!(Encoding::Zstd.label(), "zstd");
    assert_eq!(Encoding::Plain.label(), "plain");
}
