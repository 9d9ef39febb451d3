use relay_proxy::rewrite::utf8_valid;

#[test]
fn utf8_validity_matches_the_standard_library() {
    let cases: Vec<Vec<u8>> = vec![
        b"".to_vec(),
        b"plain ascii".to_vec(),
        "h\u{e9}llo \u{20ac}".as_bytes().to_vec(),
        "\u{1f600}".as_bytes().to_vec(),
        vec![0xc3, 0xa9],             // minimal two-byte scalar form
        vec![0xc0, 0x80],             // overlong two-byte NUL
        vec![0xc1, 0xbf],             // overlong two-byte
        vec![0xed, 0xa0, 0x80],       // surrogate
        vec![0xed, 0x9f, 0xbf],       // just below the surrogate range
        vec![0xee, 0x80, 0x80],       // just above the surrogate range
        vec![0xe0, 0x80, 0x80],       // overlong three-byte
        vec![0xe0, 0xa0, 0x80],       // minimal three-byte
        vec![0xf0, 0x80, 0x80, 0x80], // overlong four-byte
        vec![0xf0, 0x90, 0x80, 0x80], // minimal four-byte
        vec![0xf4, 0x8f, 0xbf, 0xbf], // the largest scalar
        vec![0xf4, 0x90, 0x80, 0x80], // beyond the largest scalar
        vec![0xf8, 0x88, 0x80, 0x80, 0x80], // five-byte form
        vec![0xff],
        vec![0x80],                   // bare continuation byte
        vec![0xc3],                   // truncated two-byte
        vec![0xe2, 0x82],             // truncated three-byte
        vec![0xf0, 0x9f, 0x98],       // truncated four-byte
        vec![0x41, 0xc3, 0xa9, 0x42], // mixed ascii and two-byte
        vec![0xc3, 0xc3, 0xa9],       // leading byte where a continuation is due
    ];
    for c in cases {
        assert_eq!(utf8_valid(&c), std::str::from_utf8(&c).is_ok(), "bytes {:?}", c);
    }
}
