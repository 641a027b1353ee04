use binbuf::addr::{Ipv4Address, Ipv6Address};
use binbuf::error::{BufferError, SupportedEndianness};
use binbuf::readable::ReadableVerify;
use binbuf::reader::{Error, Reader};
use binbuf::writeable::WriteableVerify;
use binbuf::writer::Writer;
use binbuf::endian::Endianness;
use binbuf::{BigEndian, LittleEndian, Read, Write};

#[test]
fn scenario_sequential_reads() {
    let b = &[69, 88, 65, 77, 80, 76, 69, 33];
    let mut r = Reader::new(b);

    assert_eq!(u16::read::<BigEndian>(&mut r).unwrap(), 17752);
    assert_eq!(u32::read::<BigEndian>(&mut r).unwrap(), 1095585868);
    assert_eq!(r.offset(), 6);
}

#[test]
fn scenario_little_endian_read() {
    let b = &[69, 88, 65, 77, 80, 76, 69, 33];
    let mut r = Reader::new(b);

    assert_eq!(u16::read::<LittleEndian>(&mut r).unwrap(), 22597);
}

#[test]
fn scenario_char_string_round_trip() {
    let mut w = Writer::new();
    let n = w
        .write_char_string(&[69, 88, 65, 77, 80, 76, 69, 33], None)
        .unwrap();
    assert_eq!(n, 9);
    assert_eq!(w.bytes(), &[8, 69, 88, 65, 77, 80, 76, 69, 33]);

    let mut r = Reader::new(w.bytes());
    let s = r.read_char_string(None).unwrap();
    assert_eq!(s, &[69, 88, 65, 77, 80, 76, 69, 33]);
    assert!(r.is_empty());
}

#[test]
fn bounds_failure_leaves_reader_unchanged() {
    let b = &[69];
    let mut r = Reader::new(b);

    assert_eq!(u16::read::<BigEndian>(&mut r), Err(Error::BufferTooShort));
    assert_eq!(r.len(), 1);
    assert_eq!(u16::read::<BigEndian>(&mut r), Err(Error::BufferTooShort));
    assert_eq!(r.len(), 1);

    let b: &[u8] = &[];
    let mut r = Reader::new(b);
    assert_eq!(u8::read::<BigEndian>(&mut r), Err(Error::BufferTooShort));
    assert_eq!(r.len(), 0);
}

#[test]
fn round_trip_u8() {
    for x in [0u8, 1, 0x7f, 0xff] {
        let mut w = Writer::new();
        x.write::<BigEndian>(&mut w).unwrap();
        let mut r = Reader::new(w.bytes());
        assert_eq!(u8::read::<BigEndian>(&mut r).unwrap(), x);

        let mut w = Writer::new();
        x.write::<LittleEndian>(&mut w).unwrap();
        let mut r = Reader::new(w.bytes());
        assert_eq!(u8::read::<LittleEndian>(&mut r).unwrap(), x);
    }
}

#[test]
fn round_trip_u16() {
    for x in [0u16, 1, 17752, 0xffff] {
        let mut w = Writer::new();
        x.write::<BigEndian>(&mut w).unwrap();
        let mut r = Reader::new(w.bytes());
        assert_eq!(u16::read::<BigEndian>(&mut r).unwrap(), x);

        let mut w = Writer::new();
        x.write::<LittleEndian>(&mut w).unwrap();
        let mut r = Reader::new(w.bytes());
        assert_eq!(u16::read::<LittleEndian>(&mut r).unwrap(), x);
    }
}

#[test]
fn round_trip_u32() {
    for x in [0u32, 1163411789, u32::MAX] {
        let mut w = Writer::new();
        x.write::<BigEndian>(&mut w).unwrap();
        let mut r = Reader::new(w.bytes());
        assert_eq!(u32::read::<BigEndian>(&mut r).unwrap(), x);

        let mut w = Writer::new();
        x.write::<LittleEndian>(&mut w).unwrap();
        let mut r = Reader::new(w.bytes());
        assert_eq!(u32::read::<LittleEndian>(&mut r).unwrap(), x);
    }
}

#[test]
fn round_trip_u64() {
    for x in [0u64, 4996815586883028257, u64::MAX] {
        let mut w = Writer::new();
        x.write::<BigEndian>(&mut w).unwrap();
        let mut r = Reader::new(w.bytes());
        assert_eq!(u64::read::<BigEndian>(&mut r).unwrap(), x);

        let mut w = Writer::new();
        x.write::<LittleEndian>(&mut w).unwrap();
        let mut r = Reader::new(w.bytes());
        assert_eq!(u64::read::<LittleEndian>(&mut r).unwrap(), x);
    }
}

#[test]
fn round_trip_u128() {
    for x in [0u128, 92174978314754016623629927450611041569, u128::MAX] {
        let mut w = Writer::new();
        x.write::<BigEndian>(&mut w).unwrap();
        let mut r = Reader::new(w.bytes());
        assert_eq!(u128::read::<BigEndian>(&mut r).unwrap(), x);

        let mut w = Writer::new();
        x.write::<LittleEndian>(&mut w).unwrap();
        let mut r = Reader::new(w.bytes());
        assert_eq!(u128::read::<LittleEndian>(&mut r).unwrap(), x);
    }
}

#[test]
fn round_trip_addresses() {
    let v4 = Ipv4Address::new(192, 168, 0, 1);
    let mut w = Writer::new();
    v4.write::<BigEndian>(&mut w).unwrap();
    assert_eq!(w.bytes(), &[192, 168, 0, 1]);
    let mut r = Reader::new(w.bytes());
    assert_eq!(Ipv4Address::read::<BigEndian>(&mut r).unwrap(), v4);

    let mut w = Writer::new();
    v4.write::<LittleEndian>(&mut w).unwrap();
    assert_eq!(w.bytes(), &[1, 0, 168, 192]);
    let mut r = Reader::new(w.bytes());
    assert_eq!(Ipv4Address::read::<LittleEndian>(&mut r).unwrap(), v4);

    let v6 = Ipv6Address::new(0x2001, 0xdb8, 0, 0, 0, 0, 0, 0x42);
    let mut w = Writer::new();
    v6.write::<BigEndian>(&mut w).unwrap();
    let mut r = Reader::new(w.bytes());
    assert_eq!(Ipv6Address::read::<BigEndian>(&mut r).unwrap(), v6);
}

#[test]
fn verify_reads_check_the_supported_set() {
    assert_eq!(
        <u16 as ReadableVerify>::supported_endianness(),
        SupportedEndianness::Both
    );

    let b = &[69, 88];
    let mut r = Reader::new(b);
    assert_eq!(u16::read_verify::<BigEndian>(&mut r).unwrap(), 17752);

    let b = &[69];
    let mut r = Reader::new(b);
    assert_eq!(
        u16::read_verify::<BigEndian>(&mut r),
        Err(BufferError::BufferTooShort)
    );
}

#[test]
fn verify_writes_check_the_supported_set() {
    let mut w = Writer::new();
    let n = 17752u16.write_verify::<BigEndian>(&mut w).unwrap();
    assert_eq!(n, 2);
    assert_eq!(w.bytes(), &[69, 88]);
}

#[test]
fn supported_endianness_membership() {
    assert!(SupportedEndianness::Both.supports(Endianness::Big));
    assert!(SupportedEndianness::Both.supports(Endianness::Little));
    assert!(SupportedEndianness::BigOnly.supports(Endianness::Big));
    assert!(!SupportedEndianness::BigOnly.supports(Endianness::Little));
    assert!(!SupportedEndianness::LittleOnly.supports(Endianness::Big));
    assert!(SupportedEndianness::LittleOnly.supports(Endianness::Little));
}
