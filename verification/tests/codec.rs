use mozlz4::{compress, decompress, Error};

const MAGIC: [u8; 8] = [109, 111, 122, 76, 122, 52, 48, 0];

fn round_trip(input: &[u8]) -> Vec<u8> {
    let compressed = compress(input.to_vec()).expect("compress failed");
    let decompressed = decompress(compressed).expect("decompress failed");
    assert_eq!(decompressed, input.to_vec());
    decompressed
}

#[test]
fn round_trip_empty() {
    let compressed = compress(Vec::new()).expect("compress failed");
    assert!(compressed.len() <= 13);
    assert_eq!(&compressed[0..8], &MAGIC);
    assert_eq!(&compressed[8..12], &[0, 0, 0, 0]);
    let decompressed = decompress(compressed).expect("decompress failed");
    assert_eq!(decompressed, Vec::<u8>::new());
}

#[test]
fn round_trip_hello_world() {
    let input = b"hello world";
    let compressed = compress(input.to_vec()).expect("compress failed");
    assert_eq!(&compressed[0..8], &MAGIC);
    assert_eq!(&compressed[8..12], &[11, 0, 0, 0]);
    let decompressed = decompress(compressed).expect("decompress failed");
    assert_eq!(decompressed, input.to_vec());
}

#[test]
fn round_trip_assorted_inputs() {
    round_trip(&[0]);
    round_trip(&[255]);
    round_trip(b"a");
    round_trip(&(0..=255u8).collect::<Vec<u8>>());
    let mut long: Vec<u8> = Vec::new();
    for i in 0..10_000u32 {
        long.push((i % 251) as u8);
    }
    round_trip(&long);
}

#[test]
fn size_header_is_little_endian() {
    let input = vec![7u8; 258];
    let compressed = compress(input.clone()).expect("compress failed");
    assert_eq!(&compressed[8..12], &[2, 1, 0, 0]);
    assert_eq!(decompress(compressed).expect("decompress failed"), input);
}

#[test]
fn compressible_input_shrinks() {
    let input = vec![0u8; 1000];
    let compressed = compress(input.clone()).expect("compress failed");
    assert!(compressed.len() < 1000);
    assert_eq!(decompress(compressed).expect("decompress failed"), input);
}

#[test]
fn short_buffers_are_unrecognized() {
    for len in 0..12usize {
        let buffer = vec![109u8; len];
        assert_eq!(decompress(buffer), Err(Error::UnrecognizedFormat));
    }
    // A short prefix of a real container is still too short to be a header.
    let compressed = compress(b"hello world".to_vec()).expect("compress failed");
    for len in 0..12usize {
        assert_eq!(
            decompress(compressed[0..len].to_vec()),
            Err(Error::UnrecognizedFormat)
        );
    }
}

#[test]
fn magic_is_exactly_eight_bytes() {
    assert_eq!(decompress(MAGIC.to_vec()), Err(Error::UnrecognizedFormat));
}

#[test]
fn wrong_magic_at_each_position_is_unrecognized() {
    let good = compress(b"hello world".to_vec()).expect("compress failed");
    for position in 0..8usize {
        let mut bad = good.clone();
        bad[position] = bad[position].wrapping_add(1);
        assert_eq!(decompress(bad), Err(Error::UnrecognizedFormat));
    }
}

#[test]
fn declared_size_with_empty_payload_is_malformed() {
    let mut buffer = MAGIC.to_vec();
    // 1_000_000 = 0x000F_4240, little endian.
    buffer.extend_from_slice(&[0x40, 0x42, 0x0F, 0x00]);
    assert_eq!(decompress(buffer), Err(Error::MalformedPayload));
}

#[test]
fn truncated_payload_is_malformed() {
    // Distinct bytes compress to a single literal run, so every truncation
    // leaves a block the decoder must reject.
    let input: Vec<u8> = (0..34u8).collect();
    let good = compress(input).expect("compress failed");
    assert!(good.len() > 13);
    for cut in 1..(good.len() - 12) {
        let truncated = good[0..good.len() - cut].to_vec();
        assert_eq!(decompress(truncated), Err(Error::MalformedPayload));
    }
}

#[test]
fn error_messages() {
    assert_eq!(Error::UnrecognizedFormat.message(), "Unrecognized input file");
    assert_eq!(Error::MalformedPayload.message(), "Malformed input file");
    assert_eq!(Error::CompressionFailed.message(), "Compression failed");
}
