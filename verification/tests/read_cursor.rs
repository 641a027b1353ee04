use binbuf::reader::{Error, Reader};

#[test]
fn test_new_read_buffer() {
    let data = vec![69, 88, 65, 77, 80, 76, 69, 33];
    let buf = Reader::new(data.as_slice());

    assert_eq!(buf.len(), 8);
}

#[test]
fn test_read_buffer_reset() {
    let data = vec![69, 88, 65, 77, 80, 76, 69, 33];
    let mut buf = Reader::new(data.as_slice());

    assert_eq!(buf.len(), 8);

    buf.read_vec(4).unwrap();
    assert_eq!(buf.len(), 4);

    buf.reset();
    assert_eq!(buf.len(), 8);
}

#[test]
fn test_read_buffer_jump() {
    let data = vec![69, 88, 65, 77, 80, 76, 69, 33];
    let mut buf = Reader::new(data.as_slice());

    buf.read_vec(4).unwrap();
    assert_eq!(buf.offset(), 4);

    buf.jump_to(0).unwrap();
    assert_eq!(buf.offset(), 0);
    assert_eq!(buf.jumped(), true);

    let jumped = buf.jump_reset();
    assert_eq!(jumped, true);
    assert_eq!(buf.offset(), 4);
    assert_eq!(buf.jumped(), false);
}

#[test]
fn read_string_sized() {
    let b = &[8, 69, 88, 65, 77, 80, 76, 69, 33];
    let mut r = Reader::new(b);

    let s = r.read_char_string(None).unwrap();
    assert_eq!(s, &[69, 88, 65, 77, 80, 76, 69, 33]);
}

#[test]
fn read_string_sized_max_length() {
    let b = &[8, 69, 88, 65, 77, 80, 76, 69, 33];
    let mut r = Reader::new(b);

    let e = r.read_char_string(Some(5)).unwrap_err();
    assert_eq!(e, Error::MaxLengthOverflow);
}

#[test]
fn read_char_string_max_length_leaves_reader() {
    let b = &[8, 69, 88, 65, 77, 80, 76, 69, 33];
    let mut r = Reader::new(b);

    let e = r.read_char_string(Some(3)).unwrap_err();
    assert_eq!(e, Error::MaxLengthOverflow);
    assert_eq!(r.len(), 9);
}

#[test]
fn read_char_string_empty_reader() {
    let b: &[u8] = &[];
    let mut r = Reader::new(b);

    let e = r.read_char_string(None).unwrap_err();
    assert_eq!(e, Error::BufferTooShort);
    assert_eq!(r.len(), 0);
}

#[test]
fn read_char_string_short_payload() {
    let b = &[5, 1];
    let mut r = Reader::new(b);

    let e = r.read_char_string(None).unwrap_err();
    assert_eq!(e, Error::BufferTooShort);
    assert_eq!(r.len(), 1);
}

#[test]
fn pop_and_peek() {
    let mut b = Reader::new(&[69, 88]);

    assert_eq!(b.peek(), Some(69));
    assert_eq!(b.pop(), Ok(69));
    assert_eq!(b.peek(), Some(88));
    assert_eq!(b.pop(), Ok(88));
    assert_eq!(b.peek(), None);
    assert_eq!(b.pop(), Err(Error::BufferTooShort));
}

#[test]
fn pop_past_end_fails_identically() {
    let mut b = Reader::new(&[69]);

    assert_eq!(b.pop(), Ok(69));
    assert_eq!(b.pop(), Err(Error::BufferTooShort));
    assert_eq!(b.pop(), Err(Error::BufferTooShort));
    assert_eq!(b.len(), 0);
}

#[test]
fn peekn_does_not_consume() {
    let mut b = Reader::new(&[69, 88, 65]);

    assert_eq!(b.peekn::<2>(), Some([69, 88]));
    assert_eq!(b.len(), 3);
    assert_eq!(b.peekn::<4>(), None);
    b.skipn(2).unwrap();
    assert_eq!(b.peek(), Some(65));
}

#[test]
fn skipn_bounds() {
    let mut b = Reader::new(&[69, 88, 65]);

    assert_eq!(b.skipn(2), Ok(()));
    assert_eq!(b.offset(), 2);
    assert_eq!(b.skipn(2), Err(Error::BufferTooShort));
    assert_eq!(b.offset(), 2);
    assert_eq!(b.skipn(1), Ok(()));
    assert!(b.is_empty());
}

#[test]
fn jump_to_beyond_offset_fails_unchanged() {
    let data = vec![69, 88, 65, 77];
    let mut buf = Reader::new(data.as_slice());

    buf.read_vec(2).unwrap();
    let e = buf.jump_to(3).unwrap_err();
    assert_eq!(e, Error::InvalidJump { index: 3, offset: 2 });
    assert_eq!(buf.offset(), 2);
    assert_eq!(buf.len(), 2);
    assert_eq!(buf.jumped(), false);
}

#[test]
fn jump_back_restores_most_recent() {
    let data = vec![69, 88, 65, 77, 80, 76];
    let mut buf = Reader::new(data.as_slice());

    buf.read_vec(4).unwrap();
    buf.jump_to(1).unwrap();
    buf.read_vec(2).unwrap();
    buf.jump_to(0).unwrap();
    assert_eq!(buf.offset(), 0);

    buf.jump_back();
    assert_eq!(buf.offset(), 3);
    assert_eq!(buf.jumped(), true);

    buf.jump_back();
    assert_eq!(buf.offset(), 4);
    assert_eq!(buf.jumped(), false);
}

#[test]
fn read_slice_advances() {
    let d = &[69, 88, 65, 77, 80, 76, 69, 33];
    let mut b = Reader::new(d);

    assert_eq!(b.read_slice(4), Ok(&[69u8, 88, 65, 77] as &[u8]));
    assert_eq!(b.len(), 4);
    assert_eq!(b.read_slice(5), Err(Error::BufferTooShort));
    assert_eq!(b.len(), 4);
}
