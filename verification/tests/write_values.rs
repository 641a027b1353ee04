use binbuf::addr::{Ipv4Address, Ipv6Address};
use binbuf::writer::{WriteError, Writer};
use binbuf::{BigEndian, Write};

#[test]
fn test_write_u8() {
    let mut b = Writer::new();

    match 69u8.write::<BigEndian>(&mut b) {
        Ok(n) => {
            assert_eq!(n, 1);
            assert_eq!(b.bytes(), &[69]);
        }
        Err(err) => panic!("{:?}", err),
    }
}

#[test]
fn test_write_u16() {
    let mut b = Writer::new();

    match 17752u16.write::<BigEndian>(&mut b) {
        Ok(n) => {
            assert_eq!(n, 2);
            assert_eq!(b.bytes(), &[69, 88]);
        }
        Err(err) => panic!("{:?}", err),
    }
}

#[test]
fn test_write_u32() {
    let mut b = Writer::new();

    match 1163411789u32.write::<BigEndian>(&mut b) {
        Ok(n) => {
            assert_eq!(n, 4);
            assert_eq!(b.bytes(), &[69, 88, 65, 77]);
        }
        Err(err) => panic!("{:?}", err),
    }
}

#[test]
fn test_write_u64() {
    let mut b = Writer::new();

    match 4996815586883028257u64.write::<BigEndian>(&mut b) {
        Ok(n) => {
            assert_eq!(n, 8);
            assert_eq!(b.bytes(), &[69, 88, 65, 77, 80, 76, 69, 33]);
        }
        Err(err) => panic!("{:?}", err),
    }
}

#[test]
fn test_write_char_string() {
    let mut b = Writer::new();

    match b.write_char_string(vec![69, 88, 65, 77, 80, 76, 69, 33].as_slice(), None) {
        Ok(n) => {
            assert_eq!(n, 9);
            assert_eq!(b.bytes(), &[8, 69, 88, 65, 77, 80, 76, 69, 33]);
            b.clear()
        }
        Err(err) => panic!("{:?}", err),
    }

    match b.write_char_string(String::from("EXAMPLE!").as_bytes(), None) {
        Ok(n) => {
            assert_eq!(n, 9);
            assert_eq!(b.bytes(), &[8, 69, 88, 65, 77, 80, 76, 69, 33])
        }
        Err(err) => panic!("{:?}", err),
    }
}

#[test]
fn write_u8() {
    let mut writer = Writer::new();

    let n = 69u8.write::<BigEndian>(&mut writer).unwrap();

    assert_eq!(n, 1);
    assert_eq!(writer.bytes(), &[69]);
}

#[test]
fn write_u16() {
    let mut writer = Writer::new();

    let n = 17752u16.write::<BigEndian>(&mut writer).unwrap();

    assert_eq!(n, 2);
    assert_eq!(writer.bytes(), &[69, 88]);
}

#[test]
fn write_u32() {
    let mut writer = Writer::new();

    let n = 1163411789u32.write::<BigEndian>(&mut writer).unwrap();

    assert_eq!(n, 4);
    assert_eq!(writer.bytes(), &[69, 88, 65, 77]);
}

#[test]
fn write_u64() {
    let mut writer = Writer::new();

    let n = 4996815586883028257u64
        .write::<BigEndian>(&mut writer)
        .unwrap();

    assert_eq!(n, 8);
    assert_eq!(writer.bytes(), &[69, 88, 65, 77, 80, 76, 69, 33]);
}

#[test]
fn write_char_string() {
    let mut writer = Writer::new();

    let n = writer
        .write_char_string(&[69, 88, 65, 77, 80, 76, 69, 33], None)
        .unwrap();

    assert_eq!(writer.bytes(), &[8, 69, 88, 65, 77, 80, 76, 69, 33]);
    assert_eq!(n, 9);
}

#[test]
fn write_char_string_max_len() {
    let mut writer = Writer::new();

    let err = writer
        .write_char_string(&[69, 88, 65, 77, 80, 76, 69, 33], Some(3))
        .unwrap_err();

    assert_eq!(err, WriteError::MaxLengthOverflow);
}

#[test]
fn write_char_string_label_overflow() {
    let mut writer = Writer::new();
    let long = vec![65u8; 256];

    let err = writer.write_char_string(long.as_slice(), None).unwrap_err();

    assert_eq!(err, WriteError::LengthLabelOverflow);
    assert_eq!(writer.len(), 0);
}

#[test]
fn write_ipv4addr() {
    let mut writer = Writer::new();
    let addr = Ipv4Address::new(127, 0, 0, 1);

    let n = addr.write::<BigEndian>(&mut writer).unwrap();

    assert_eq!(n, 4);
    assert_eq!(writer.bytes(), &[127, 0, 0, 1])
}

#[test]
fn write_ipv6addr() {
    let mut writer = Writer::new();
    let addr = Ipv6Address::new(0, 0, 0, 0, 0, 0, 0, 1);

    let n = addr.write::<BigEndian>(&mut writer).unwrap();

    assert_eq!(n, 16);
    assert_eq!(
        writer.bytes(),
        &[0, 0, 0, 0, 0, 0, 0, 0, 0, 0, 0, 0, 0, 0, 0, 1]
    )
}

#[test]
fn write_string_ascii_only() {
    let mut writer = Writer::new();

    let n = String::from("EXAMPLE!").write::<BigEndian>(&mut writer).unwrap();
    assert_eq!(n, 8);
    assert_eq!(writer.bytes(), &[69, 88, 65, 77, 80, 76, 69, 33]);

    let err = String::from("\u{e9}").write::<BigEndian>(&mut writer).unwrap_err();
    assert_eq!(err, WriteError::NonAsciiData);
    assert_eq!(writer.len(), 8);
}

#[test]
fn write_string_directions_unsupported() {
    let mut writer = Writer::new();
    let s = String::from("EXAMPLE!");

    assert_eq!(s.write_be(&mut writer), Err(WriteError::BigEndianNotSupported));
    assert_eq!(s.write_le(&mut writer), Err(WriteError::LittleEndianNotSupported));
    assert_eq!(writer.len(), 0);
}
