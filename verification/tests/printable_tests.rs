use keytag::printable::{decode_printable, encode_printable};
use keytag::Error;

#[test]
fn encode_concrete_one_byte() {
    // 0xFF cuts into the 5-bit groups 31 and 28, the symbols '9' and 'h'.
    let token = encode_printable(b"pub0", &[0xFF]);
    assert_eq!(token, "pub09h");
    assert_eq!(decode_printable(b"pub0", "pub09h"), Ok(vec![0xFF]));
}

#[test]
fn encode_empty_payload() {
    let token = encode_printable(b"pub0", &[]);
    assert_eq!(token, "pub0");
    assert_eq!(decode_printable(b"pub0", "pub0"), Ok(vec![]));
}

#[test]
fn encode_five_byte_block() {
    // One full block: 8 symbols, no padding.
    let token = encode_printable(b"x", &[0, 0, 0, 0, 0]);
    assert_eq!(token, "xyyyyyyyy");
    assert_eq!(decode_printable(b"x", &token), Ok(vec![0, 0, 0, 0, 0]));
}

#[test]
fn round_trip_all_lengths() {
    for n in 0..40usize {
        let payload: Vec<u8> = (0..n).map(|i| (i * 37 + 11) as u8).collect();
        let token = encode_printable(b"t0", &payload);
        assert_eq!(decode_printable(b"t0", &token), Ok(payload));
    }
}

#[test]
fn decode_rejects_wrong_prefix() {
    assert_eq!(
        decode_printable(b"pub0", "sec0yy"),
        Err(Error::InvalidPrintable)
    );
    assert_eq!(decode_printable(b"pub0", "pub"), Err(Error::InvalidPrintable));
    assert_eq!(decode_printable(b"pub0", ""), Err(Error::InvalidPrintable));
}

#[test]
fn decode_rejects_bad_symbol() {
    // 'l', 'v' and '2' are not in the alphabet.
    assert_eq!(decode_printable(b"p", "pl"), Err(Error::InvalidBase32));
    assert_eq!(decode_printable(b"p", "pv"), Err(Error::InvalidBase32));
    assert_eq!(decode_printable(b"p", "p2"), Err(Error::InvalidBase32));
    // Neither is a non-ASCII character.
    assert_eq!(decode_printable(b"p", "p\u{e9}"), Err(Error::InvalidBase32));
}

#[test]
fn decode_rejects_impossible_lengths() {
    // 1, 3 and 6 symbols can never be an encoder output.
    assert_eq!(decode_printable(b"p", "py"), Err(Error::InvalidBase32));
    assert_eq!(decode_printable(b"p", "pyyy"), Err(Error::InvalidBase32));
    assert_eq!(decode_printable(b"p", "pyyyyyy"), Err(Error::InvalidBase32));
}

#[test]
fn decode_rejects_nonzero_filler_bits() {
    // Two symbols decode one byte; the low two bits of the second symbol
    // are filler and must be zero. '9' is 31: all filler bits set.
    assert_eq!(decode_printable(b"p", "p99"), Err(Error::InvalidBase32));
}
