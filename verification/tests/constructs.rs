use arq::constructs::{
    be_i32, be_i64, be_u32, be_u64, be_u8, binary_sha1, boolean, compression_type, date_time,
    maybe_date_time, maybe_sha_string, maybe_string, non_null_string, sha_string, sized_string,
    tag, take, unwrap_compression_type, vec_of, version_header, ParseError, Timestamp,
};
use arq::sha::SHA1;
use arq::CompressionType;

#[test]
fn non_null_string_is_parsed() {
    let data = &[
        0x01, 0x00, 0x00, 0x00, 0x00, 0x00, 0x00, 0x00, 0x0D, 0x48, 0x65, 0x6c, 0x6c, 0x6f,
        0x2c, 0x20, 0x77, 0x6f, 0x72, 0x6c, 0x64, 0x21,
    ];
    match maybe_string(data) {
        Ok((_, s)) => assert_eq!(s.unwrap(), "Hello, world!"),
        Err(e) => assert!(false, "Parse failed: {:?}", e),
    }
}

#[test]
fn null_string_is_an_error() {
    let data = &[0x00, 0x00, 0x00, 0x00, 0x00, 0x00, 0x00, 0x00, 0x00];
    let r = non_null_string(data);
    assert!(r.is_err());
}

#[test]
fn null_maybe_string_is_not_an_error() {
    let data = &[0x00, 0x00, 0x00, 0x00, 0x00, 0x00, 0x00, 0x00, 0x00];
    match maybe_string(data) {
        Ok((_, r)) => assert_eq!(r, None),
        Err(e) => assert!(false, "Parse failed: {:?}", e),
    }
}

#[test]
fn non_null_datetime_is_parsed() {
    let data = &[0x01, 0x00, 0x00, 0x00, 0x00, 0x00, 0x00, 0x01, 0x00];
    match date_time(data) {
        Ok((_, dt)) => {
            // 256 milliseconds after the epoch
            let expected = Timestamp { secs: 0, nanos: 256000 * 1000 };
            assert_eq!(dt, expected);
        }
        Err(e) => assert!(false, "Parse failed: {:?}", e),
    }
}

#[test]
fn null_datetime_is_an_error() {
    let data = &[0x00, 0x00, 0x00, 0x00, 0x00, 0x00, 0x00, 0x01, 0x00];
    let r = date_time(data);
    assert!(r.is_err());
}

#[test]
fn null_maybe_datetime_is_not_an_error() {
    let data = &[0x00, 0x00, 0x00, 0x00, 0x00, 0x00, 0x00, 0x01, 0x00];
    match maybe_date_time(data) {
        Ok((_, r)) => assert_eq!(r, None),
        Err(e) => assert!(false, "Parse failed: {:?}", e),
    }
}

#[test]
fn timestamp_is_the_instant_of_its_milliseconds() {
    let data = &[0x01, 0x00, 0x00, 0x00, 0x00, 0x00, 0x00, 0x01, 0x00];
    let (_, t) = date_time(data).unwrap();
    let instant = chrono::DateTime::<chrono::Utc>::from_timestamp(t.secs, t.nanos).unwrap();
    assert_eq!(
        instant.to_rfc3339_opts(chrono::SecondsFormat::Millis, true),
        "1970-01-01T00:00:00.256Z"
    );
}

#[test]
fn timestamp_splits_seconds_and_nanoseconds() {
    // 1_600_000_000_123 ms
    let ms: u64 = 1_600_000_000_123;
    let mut data = vec![0x01];
    data.extend_from_slice(&ms.to_be_bytes());
    data.push(0xaa);
    let (rest, t) = maybe_date_time(&data).unwrap();
    assert_eq!(rest, &[0xaa]);
    assert_eq!(t, Some(Timestamp { secs: 1_600_000_000, nanos: 123_000_000 }));
}

#[test]
fn null_maybe_string_takes_one_byte() {
    let data = &[0x00, 0x07];
    let (rest, r) = maybe_string(data).unwrap();
    assert_eq!(r, None);
    assert_eq!(rest, &[0x07]);
}

#[test]
fn maybe_string_leaves_what_follows() {
    let data = &[0x01, 0, 0, 0, 0, 0, 0, 0, 2, 0x68, 0x69, 0x21, 0x22];
    let (rest, r) = maybe_string(data).unwrap();
    assert_eq!(r, Some("hi".to_string()));
    assert_eq!(rest, &[0x21, 0x22]);
}

#[test]
fn any_nonzero_flag_is_true() {
    assert_eq!(boolean(&[0x00]), Ok((&[][..], false)));
    assert_eq!(boolean(&[0x01]), Ok((&[][..], true)));
    assert_eq!(boolean(&[0xff, 0x00]), Ok((&[0x00][..], true)));
    assert_eq!(boolean(&[]), Err(ParseError));
}

#[test]
fn integers_are_big_endian() {
    assert_eq!(be_u8(&[0x7f, 1]), Ok((&[1][..], 0x7f)));
    assert_eq!(be_u32(&[0x01, 0x02, 0x03, 0x04, 9]), Ok((&[9][..], 0x0102_0304)));
    assert_eq!(
        be_u64(&[0x01, 0x02, 0x03, 0x04, 0x05, 0x06, 0x07, 0x08]),
        Ok((&[][..], 0x0102_0304_0506_0708))
    );
    assert_eq!(be_u64(&[0xff; 8]), Ok((&[][..], u64::MAX)));
    assert_eq!(be_u32(&[0xff; 4]), Ok((&[][..], u32::MAX)));
    assert_eq!(be_i32(&[0xff, 0xff, 0xff, 0xfe]), Ok((&[][..], -2)));
    assert_eq!(be_i32(&[0x80, 0, 0, 0]), Ok((&[][..], i32::MIN)));
    assert_eq!(be_i32(&[0x7f, 0xff, 0xff, 0xff]), Ok((&[][..], i32::MAX)));
    assert_eq!(be_i64(&[0xff; 8]), Ok((&[][..], -1)));
    assert_eq!(be_i64(&[0x80, 0, 0, 0, 0, 0, 0, 0]), Ok((&[][..], i64::MIN)));
    assert_eq!(be_i64(&[0, 0, 0, 0, 0, 0, 0x01, 0x00]), Ok((&[][..], 256)));
}

#[test]
fn short_integers_fail() {
    assert_eq!(be_u32(&[1, 2, 3]), Err(ParseError));
    assert_eq!(be_u64(&[1, 2, 3, 4, 5, 6, 7]), Err(ParseError));
    assert_eq!(be_i32(&[]), Err(ParseError));
    assert_eq!(be_i64(&[0; 7]), Err(ParseError));
}

#[test]
fn take_splits_the_input() {
    assert_eq!(take(2, &[1, 2, 3]), Ok((&[3][..], &[1, 2][..])));
    assert_eq!(take(3, &[1, 2, 3]), Ok((&[][..], &[1, 2, 3][..])));
    assert_eq!(take(0, &[1]), Ok((&[1][..], &[][..])));
    assert_eq!(take(4, &[1, 2, 3]), Err(ParseError));
    assert_eq!(take(u64::MAX, &[1, 2, 3]), Err(ParseError));
}

#[test]
fn sized_string_needs_all_its_bytes() {
    let data = &[0, 0, 0, 0, 0, 0, 0, 3, 0x61, 0x62];
    assert!(sized_string(data).is_err());
    let data = &[0, 0, 0, 0, 0, 0, 0, 0];
    assert_eq!(sized_string(data), Ok((&[][..], String::new())));
    let data = &[0xff, 0xff, 0xff, 0xff, 0xff, 0xff, 0xff, 0xff, 0x61];
    assert!(sized_string(data).is_err());
}

#[test]
fn sized_string_has_to_be_utf8() {
    let data = &[0, 0, 0, 0, 0, 0, 0, 2, 0xc3, 0x28];
    assert!(sized_string(data).is_err());
    let data = &[0, 0, 0, 0, 0, 0, 0, 2, 0xc3, 0xa9, 0x01];
    assert_eq!(sized_string(data), Ok((&[0x01][..], "\u{e9}".to_string())));
}

#[test]
fn binary_sha_is_twenty_bytes() {
    let mut data: Vec<u8> = (0u8..20).collect();
    data.push(0xee);
    let (rest, sha) = binary_sha1(&data).unwrap();
    assert_eq!(rest, &[0xee]);
    assert_eq!(sha.as_bytes(), &data[..20]);
    assert!(binary_sha1(&data[..19]).is_err());
}

fn sha_string_bytes(hex: &str) -> Vec<u8> {
    let mut data = vec![0x01];
    data.extend_from_slice(&(hex.len() as u64).to_be_bytes());
    data.extend_from_slice(hex.as_bytes());
    data
}

#[test]
fn sha_string_is_forty_hex_digits() {
    let hex = "000102030405060708090a0b0c0d0e0f10111213";
    let data = sha_string_bytes(hex);
    let (rest, sha) = sha_string(&data).unwrap();
    assert!(rest.is_empty());
    let expected: Vec<u8> = (0u8..20).collect();
    assert_eq!(sha.as_bytes(), &expected[..]);
    assert_eq!(sha.as_string(), hex);
}

#[test]
fn sha_string_takes_upper_case() {
    let data = sha_string_bytes("AABBCCDDEEFF00112233445566778899aAbBcCdD");
    let (_, sha) = sha_string(&data).unwrap();
    assert_eq!(sha.as_string(), "aabbccddeeff00112233445566778899aabbccdd");
}

#[test]
fn sha_string_rejects_other_texts() {
    assert!(sha_string(&sha_string_bytes("0001")).is_err());
    assert!(sha_string(&sha_string_bytes("000102030405060708090a0b0c0d0e0f1011121")).is_err());
    assert!(sha_string(&sha_string_bytes("g00102030405060708090a0b0c0d0e0f10111213")).is_err());
    assert!(sha_string(&sha_string_bytes("000102030405060708090a0b0c0d0e0f1011121314")).is_err());
    assert!(sha_string(&[0x00]).is_err());
}

#[test]
fn maybe_sha_string_may_be_null() {
    assert_eq!(maybe_sha_string(&[0x00, 0x05]), Ok((&[0x05][..], None)));
    let data = sha_string_bytes("ffffffffffffffffffffffffffffffffffffffff");
    let (_, sha) = maybe_sha_string(&data).unwrap();
    assert_eq!(sha.unwrap().as_bytes(), &[0xff; 20]);
    assert!(maybe_sha_string(&sha_string_bytes("zz")).is_err());
}

#[test]
fn version_header_reads_three_digits() {
    assert_eq!(version_header(b"TreeV", b"TreeV018rest"), Ok((&b"rest"[..], 18)));
    assert_eq!(version_header(b"CommitV", b"CommitV009"), Ok((&b""[..], 9)));
    assert_eq!(version_header(b"CommitV", b"CommitV999"), Ok((&b""[..], 999)));
    assert_eq!(version_header(b"CommitV", b"CommitV000"), Ok((&b""[..], 0)));
}

#[test]
fn version_header_rejects_other_input() {
    assert!(version_header(b"TreeV", b"CommitV009").is_err());
    assert!(version_header(b"TreeV", b"TreeV01").is_err());
    assert!(version_header(b"TreeV", b"TreeV0a1").is_err());
    assert!(version_header(b"TreeV", b"TreeV+12").is_err());
    assert!(version_header(b"TreeV", b"Tree").is_err());
    assert!(version_header(b"TreeV", b"").is_err());
}

#[test]
fn tag_strips_the_literal() {
    assert_eq!(tag(b"ab", b"abc"), Ok(&b"c"[..]));
    assert_eq!(tag(b"", b"abc"), Ok(&b"abc"[..]));
    assert_eq!(tag(b"ab", b"ac"), Err(ParseError));
    assert_eq!(tag(b"abc", b"ab"), Err(ParseError));
}

#[test]
fn compression_type_is_a_tag() {
    assert_eq!(compression_type(&[0, 0, 0, 0]), Ok((&[][..], CompressionType::Uncompressed)));
    assert_eq!(compression_type(&[0, 0, 0, 1]), Ok((&[][..], CompressionType::GZip)));
    assert_eq!(compression_type(&[0, 0, 0, 2, 7]), Ok((&[7][..], CompressionType::LZ4)));
    assert_eq!(compression_type(&[0, 0, 0, 3]), Err(ParseError));
    assert_eq!(compression_type(&[1, 0, 0, 0]), Err(ParseError));
    assert_eq!(compression_type(&[0, 0, 1]), Err(ParseError));
}

#[test]
fn compression_type_from_tag() {
    assert_eq!(CompressionType::try_from(0), Ok(CompressionType::Uncompressed));
    assert_eq!(CompressionType::try_from(1), Ok(CompressionType::GZip));
    assert_eq!(CompressionType::try_from(2), Ok(CompressionType::LZ4));
    assert_eq!(CompressionType::try_from(3), Err(3));
    assert_eq!(CompressionType::try_from(u32::MAX), Err(u32::MAX));
}

#[test]
fn older_flag_wins_over_tag() {
    assert_eq!(unwrap_compression_type(Some(true), None), CompressionType::GZip);
    assert_eq!(unwrap_compression_type(Some(false), None), CompressionType::Uncompressed);
    assert_eq!(
        unwrap_compression_type(Some(false), Some(CompressionType::LZ4)),
        CompressionType::Uncompressed
    );
    assert_eq!(unwrap_compression_type(Some(true), Some(CompressionType::LZ4)), CompressionType::GZip);
    assert_eq!(unwrap_compression_type(None, Some(CompressionType::LZ4)), CompressionType::LZ4);
    assert_eq!(unwrap_compression_type(None, Some(CompressionType::GZip)), CompressionType::GZip);
    assert_eq!(unwrap_compression_type(None, None), CompressionType::Uncompressed);
}

#[test]
fn counted_list_of_strings() {
    let mut data = Vec::new();
    data.extend_from_slice(&2u64.to_be_bytes());
    for s in ["ab", "c"] {
        data.push(1);
        data.extend_from_slice(&(s.len() as u64).to_be_bytes());
        data.extend_from_slice(s.as_bytes());
    }
    data.push(0x99);
    let (rest, items) = vec_of::<String>(0, &data).unwrap();
    assert_eq!(rest, &[0x99]);
    assert_eq!(items, vec!["ab".to_string(), "c".to_string()]);
    // one element short
    let mut short = Vec::new();
    short.extend_from_slice(&3u64.to_be_bytes());
    short.extend_from_slice(&data[8..data.len() - 1]);
    assert!(vec_of::<String>(0, &short).is_err());
    // an empty list takes the count only
    let empty = 0u64.to_be_bytes();
    assert_eq!(vec_of::<String>(0, &empty), Ok((&[][..], Vec::<String>::new())));
}

#[test]
fn sha_from_text() {
    let sha = SHA1::try_from("000102030405060708090a0b0c0d0e0f10111213").unwrap();
    let expected: Vec<u8> = (0u8..20).collect();
    assert_eq!(sha.as_bytes(), &expected[..]);
    assert_eq!(SHA1::try_from("0001"), Err("Not a valid SHA1"));
    assert_eq!(SHA1::try_from("xyz"), Err("Not a valid hex string"));
    assert_eq!(SHA1::try_from("abc"), Err("Not a valid hex string"));
    assert_eq!(
        SHA1::try_from(String::from("ffffffffffffffffffffffffffffffffffffffff")).unwrap().as_bytes(),
        &[0xff; 20]
    );
    assert_eq!(SHA1::try_from(String::from("")), Err("Not a valid SHA1"));
    assert_eq!(SHA1::try_from(vec![1u8; 20]).unwrap().as_bytes(), &[1u8; 20]);
    assert_eq!(SHA1::try_from(vec![1u8; 19]), Err(vec![1u8; 19]));
}

#[test]
fn sha_as_text_is_lower_case_hex() {
    let sha = SHA1::from_slice(&[0xAB; 20]).unwrap();
    assert_eq!(sha.as_string(), "abababababababababababababababababababab");
    assert_eq!(sha.to_string(), "abababababababababababababababababababab");
    assert!(sha.same(&SHA1::from_hex(b"ABABABABABABABABABABABABABABABABABABABAB").unwrap()));
    assert!(!sha.same(&SHA1::from_slice(&[0xAC; 20]).unwrap()));
    assert!(SHA1::from_slice(&[0; 21]).is_none());
    assert!(SHA1::from_hex(b"abab").is_none());
}
