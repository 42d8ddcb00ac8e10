use utf8_stream::{Utf8Validator, ValidationError};

fn whole(b: &[u8]) -> Result<(), ValidationError> {
    let mut v = Utf8Validator::new();
    v.validate(b).and_then(|_| v.validate_end())
}

fn in_chunks(chunks: &[&[u8]]) -> Result<(), ValidationError> {
    let mut v = Utf8Validator::new();
    for c in chunks {
        v.validate(c)?;
    }
    v.validate_end()
}

fn samples() -> Vec<Vec<u8>> {
    vec![
        vec![],
        b"abc".to_vec(),
        "€".as_bytes().to_vec(),
        "¢ह€한𐍈".as_bytes().to_vec(),
        vec![0xff],
        vec![0xe0, 0x80, 0x80],
        vec![0xe0, 0xa0, 0x80],
        vec![0xed, 0x9f, 0xbf],
        vec![0xed, 0xa0, 0x80],
        vec![0xf0, 0x8f, 0xbf, 0xbf],
        vec![0xf0, 0x90, 0x80, 0x80],
        vec![0xf0, 0x90, 0x80],
        vec![0xf4, 0x8f, 0xbf, 0xbf],
        vec![0xf4, 0x90, 0x80, 0x80],
        vec![0xf5, 0x80, 0x80, 0x80],
        vec![0xc1, 0xbf],
        vec![0xc2, 0x80],
        vec![0xc2],
        vec![0x80],
        vec![0x61, 0xc3, 0xa9, 0x62, 0xe2, 0x82],
        vec![0xef, 0xbf, 0xbf, 0x00, 0x7f],
    ]
}

#[test]
fn whole_buffer_matches_std() {
    for b in samples() {
        assert_eq!(whole(&b).is_ok(), std::str::from_utf8(&b).is_ok(), "{:?}", b);
    }
}

#[test]
fn every_single_lead_byte_matches_std() {
    for lead in 0u32..=255 {
        for next in [0x7fu32, 0x80, 0x8f, 0x90, 0x9f, 0xa0, 0xbf, 0xc0] {
            let b = vec![lead as u8, next as u8, 0x80, 0x80];
            assert_eq!(whole(&b).is_ok(), std::str::from_utf8(&b).is_ok(), "{:?}", b);
        }
    }
}

#[test]
fn chunk_boundaries_do_not_matter() {
    for b in samples() {
        let one = whole(&b).is_ok();
        for cut in 0..=b.len() {
            let (x, y) = b.split_at(cut);
            assert_eq!(in_chunks(&[x, y]).is_ok(), one, "{:?} cut at {}", b, cut);
        }
        let bytes: Vec<&[u8]> = b.chunks(1).collect();
        assert_eq!(in_chunks(&bytes).is_ok(), one, "{:?} byte by byte", b);
    }
}

#[test]
fn ascii_fast_path_counts_like_slow_path() {
    let mut fast = Utf8Validator::new();
    assert_eq!(fast.validate("é".as_bytes()), Ok(()));
    assert_eq!(fast.validate(b"abc"), Ok(()));
    let mut slow = Utf8Validator::new();
    assert_eq!(slow.validate("éabc".as_bytes()), Ok(()));
    assert_eq!(fast.processed_count(), 5);
    assert_eq!(slow.processed_count(), 5);
    assert_eq!(fast.validate_end(), slow.validate_end());
}

#[test]
fn fault_offset_is_stream_index() {
    let mut v = Utf8Validator::new();
    assert_eq!(v.validate(b"ab"), Ok(()));
    assert_eq!(v.validate(&[0x63, 0xff, 0x64]), Err(ValidationError::InvalidByte(3)));
    assert_eq!(v.processed_count(), 4);
    let mut w = Utf8Validator::new();
    assert_eq!(w.validate(&[0x61, 0x62, 0x63, 0xff, 0x64]), Err(ValidationError::InvalidByte(3)));
}

#[test]
fn fault_offset_in_split_sequence() {
    let mut v = Utf8Validator::new();
    assert_eq!(v.validate(&[0x61, 0xe2]), Ok(()));
    assert_eq!(v.validate(&[0x82]), Ok(()));
    assert_eq!(v.validate(&[0x41]), Err(ValidationError::InvalidByte(3)));
}

#[test]
fn no_recovery_after_invalid_byte() {
    let mut v = Utf8Validator::new();
    assert_eq!(v.validate(&[0xff]), Err(ValidationError::InvalidByte(0)));
    assert_eq!(v.validate_end(), Err(ValidationError::AlreadyInvalid));
    assert_eq!(v.validate(b"abc"), Err(ValidationError::InvalidByte(1)));
    assert_eq!(v.validate_end(), Err(ValidationError::AlreadyInvalid));
    assert_eq!(v.validate_end(), Err(ValidationError::AlreadyInvalid));
}

#[test]
fn empty_input_is_valid() {
    let v = Utf8Validator::new();
    assert_eq!(v.validate_end(), Ok(()));
    let mut w = Utf8Validator::new();
    assert_eq!(w.validate(&[]), Ok(()));
    assert_eq!(w.validate(&[]), Ok(()));
    assert_eq!(w.validate_end(), Ok(()));
    assert_eq!(w.processed_count(), 0);
}

#[test]
fn ascii_then_finish_succeeds() {
    assert_eq!(whole(b"abc"), Ok(()));
}

#[test]
fn euro_sign_in_one_chunk() {
    assert_eq!(whole(&[0xe2, 0x82, 0xac]), Ok(()));
}

#[test]
fn euro_sign_in_three_chunks() {
    assert_eq!(in_chunks(&[&[0xe2], &[0x82], &[0xac]]), Ok(()));
}

#[test]
fn illegal_lead_byte_at_offset_zero() {
    let mut v = Utf8Validator::new();
    assert_eq!(v.validate(&[0xff]), Err(ValidationError::InvalidByte(0)));
    assert!(v.validate_end().is_err());
}

#[test]
fn overlong_three_byte_rejected() {
    let mut v = Utf8Validator::new();
    assert_eq!(v.validate(&[0xe0, 0x80, 0x80]), Err(ValidationError::InvalidByte(1)));
    assert!(v.validate_end().is_err());
}

#[test]
fn truncated_four_byte_fails_at_end() {
    let mut v = Utf8Validator::new();
    assert_eq!(v.validate(&[0xf0, 0x90, 0x80]), Ok(()));
    assert_eq!(v.validate_end(), Err(ValidationError::Truncated));
    assert_eq!(v.validate_end(), Err(ValidationError::Truncated));
}

#[test]
fn surrogates_rejected() {
    let mut v = Utf8Validator::new();
    assert_eq!(v.validate(&[0xed, 0xa0, 0x80]), Err(ValidationError::InvalidByte(1)));
}

#[test]
fn largest_code_point_accepted_and_beyond_rejected() {
    assert_eq!(whole(&[0xf4, 0x8f, 0xbf, 0xbf]), Ok(()));
    let mut v = Utf8Validator::new();
    assert_eq!(v.validate(&[0xf4, 0x90, 0x80, 0x80]), Err(ValidationError::InvalidByte(1)));
}

#[test]
fn continuation_byte_without_lead_rejected() {
    let mut v = Utf8Validator::new();
    assert_eq!(v.validate(&[0x41, 0x80]), Err(ValidationError::InvalidByte(1)));
    assert_eq!(v.processed_count(), 2);
}
