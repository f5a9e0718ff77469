use ktra::error::Error;
use ktra::frame::{parse_frame, read_length, read_tarball, take_bytes};

fn framed(metadata: &[u8], tarball: &[u8]) -> Vec<u8> {
    let mut body = Vec::new();
    body.extend_from_slice(&(metadata.len() as u32).to_le_bytes());
    body.extend_from_slice(metadata);
    body.extend_from_slice(&(tarball.len() as u32).to_le_bytes());
    body.extend_from_slice(tarball);
    body
}

fn body_length(r: Result<ktra::frame::Frame<'_>, Error>) -> Option<usize> {
    match r {
        Err(Error::InvalidBodyLength(n)) => Some(n),
        _ => None,
    }
}

#[test]
fn a_frame_of_the_stated_length_is_accepted() {
    let body = framed(b"{\"name\":\"alpha\"}", &[0, 1, 2, 3, 4, 5, 6, 7, 8, 9]);
    assert_eq!(body.len(), 8 + 16 + 10);
    let frame = parse_frame(&body).unwrap();
    assert_eq!(frame.metadata, b"{\"name\":\"alpha\"}");
    assert_eq!(frame.tarball, &[0, 1, 2, 3, 4, 5, 6, 7, 8, 9]);
}

#[test]
fn a_frame_of_two_empty_parts_is_accepted() {
    let body = framed(b"", b"");
    assert_eq!(body, vec![0u8; 8]);
    let frame = parse_frame(&body).unwrap();
    assert!(frame.metadata.is_empty());
    assert!(frame.tarball.is_empty());
}

#[test]
fn a_byte_behind_the_crate_file_is_refused() {
    let mut body = framed(b"meta", b"crate");
    body.push(7);
    assert_eq!(body_length(parse_frame(&body)), Some(1));
    body.extend_from_slice(&[1, 2, 3]);
    assert_eq!(body_length(parse_frame(&body)), Some(4));
}

#[test]
fn a_frame_that_is_cut_short_is_refused() {
    let body = framed(b"meta", b"crate");
    for cut in 0..body.len() {
        assert!(parse_frame(&body[..cut]).is_err(), "cut at {}", cut);
    }
}

#[test]
fn the_length_reported_is_what_was_left() {
    // fewer than four bytes for the first length
    assert_eq!(body_length(parse_frame(&[1, 0, 0])), Some(3));
    assert_eq!(body_length(parse_frame(&[])), Some(0));
    // metadata announced as 4 bytes, 2 there
    assert_eq!(body_length(parse_frame(&[4, 0, 0, 0, b'a', b'b'])), Some(2));
    // no room for the second length
    assert_eq!(body_length(parse_frame(&[1, 0, 0, 0, b'a', 9, 9])), Some(2));
    // crate file announced as 3 bytes, 1 there
    assert_eq!(
        body_length(parse_frame(&[1, 0, 0, 0, b'a', 3, 0, 0, 0, 0xff])),
        Some(1)
    );
}

#[test]
fn lengths_are_little_endian() {
    let (n, rest) = read_length(&[0x01, 0x02, 0x03, 0x04, 0xaa]).unwrap();
    assert_eq!(n, 0x0403_0201);
    assert_eq!(rest, &[0xaa]);
    let (n, rest) = read_length(&[0xff, 0xff, 0xff, 0xff]).unwrap();
    assert_eq!(n, 0xffff_ffff);
    assert!(rest.is_empty());
    let (n, _) = read_length(&[0, 1, 0, 0]).unwrap();
    assert_eq!(n, 256);
}

#[test]
fn a_length_needs_four_bytes() {
    assert!(matches!(read_length(&[1, 2, 3]), Err(Error::InvalidBodyLength(3))));
    assert!(matches!(read_length(&[]), Err(Error::InvalidBodyLength(0))));
}

#[test]
fn bytes_are_taken_from_the_front() {
    let (front, behind) = take_bytes(&[1, 2, 3, 4, 5], 2).unwrap();
    assert_eq!(front, &[1, 2]);
    assert_eq!(behind, &[3, 4, 5]);
    let (front, behind) = take_bytes(&[1, 2], 2).unwrap();
    assert_eq!(front, &[1, 2]);
    assert!(behind.is_empty());
    let (front, behind) = take_bytes(&[1, 2], 0).unwrap();
    assert!(front.is_empty());
    assert_eq!(behind, &[1, 2]);
    assert!(matches!(take_bytes(&[1, 2], 3), Err(Error::InvalidBodyLength(2))));
}

#[test]
fn the_crate_file_must_fill_what_follows_the_metadata() {
    assert_eq!(read_tarball(&[2, 0, 0, 0, 8, 9]).unwrap(), &[8, 9]);
    assert!(matches!(read_tarball(&[2, 0, 0, 0, 8, 9, 10]), Err(Error::InvalidBodyLength(1))));
    assert!(matches!(read_tarball(&[2, 0, 0, 0, 8]), Err(Error::InvalidBodyLength(1))));
    assert!(matches!(read_tarball(&[2, 0]), Err(Error::InvalidBodyLength(2))));
}

#[test]
fn any_other_length_than_the_stated_one_is_refused() {
    let body = framed(b"0123456789", b"abcdef");
    assert!(parse_frame(&body).is_ok());
    let mut longer = body.clone();
    longer.push(0);
    assert!(parse_frame(&longer).is_err());
    let shorter = &body[..body.len() - 1];
    assert!(parse_frame(shorter).is_err());
    // the lengths lie: metadata_len + crate_len + 8 is not the length of the body
    let mut lying = body.clone();
    lying[0] = 9;
    assert!(parse_frame(&lying).is_err());
    let mut lying = body.clone();
    lying[14] = 7;
    assert!(parse_frame(&lying).is_err());
}
