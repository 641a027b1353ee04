use binbuf::endian::Endianness;
use binbuf::error::BinaryErrorVariant;
use binbuf::iter::{iter_u16, try_iter_i16, try_iter_u16, try_iter_u32, try_iter_u64};
use binbuf::read::{
    read_i16, read_i64, read_iter_u16, read_seek_u16, read_u16, read_u32, read_u64,
    try_read_seek_i32, try_read_seek_u16, try_read_seek_u64,
};
use binbuf::write::{
    try_write_i16, try_write_iter_u16, try_write_u16, try_write_u32, try_write_u64, write_iter_u32,
    write_seek_u16, write_seek_u64, write_u16, write_u64,
};

const DATA: [u8; 8] = [69, 88, 65, 77, 80, 76, 69, 33];

#[test]
fn read_u16_both_orders() {
    assert_eq!(read_u16(&DATA[0..2], Endianness::Big).unwrap(), 17752);
    assert_eq!(read_u16(&DATA[0..2], Endianness::Little).unwrap(), 22597);
}

#[test]
fn read_u16_short_slice() {
    let e = read_u16(&DATA[0..1], Endianness::Big).unwrap_err();
    assert_eq!(e.variant, BinaryErrorVariant::U16);
    assert_eq!(e.message, "Slice of bytes too short");
}

#[test]
fn read_u32_both_orders() {
    assert_eq!(read_u32(&DATA[0..4], Endianness::Big).unwrap(), 1163411789);
    assert_eq!(read_u32(&DATA[0..4], Endianness::Little).unwrap(), 1296128069);
}

#[test]
fn read_u64_value() {
    assert_eq!(read_u64(&DATA, Endianness::Big).unwrap(), 4996815586883028257);
    let e = read_u64(&DATA[0..7], Endianness::Big).unwrap_err();
    assert_eq!(e.variant, BinaryErrorVariant::U64);
    assert_eq!(e.message, "Slice of bytes too short to read");
}

#[test]
fn read_signed_values() {
    assert_eq!(read_i16(&[255, 254], Endianness::Big).unwrap(), -2);
    assert_eq!(read_i64(&[255, 255, 255, 255, 255, 255, 255, 255], Endianness::Big).unwrap(), -1);
}

#[test]
fn read_seek_advances_offset() {
    let d = DATA.to_vec();
    let mut o = 0;

    let n = try_read_seek_u16(&d, &mut o, Endianness::Big).unwrap();
    assert_eq!(n, 17752);
    assert_eq!(o, 2);

    let n = try_read_seek_u16(&d, &mut o, Endianness::Big).unwrap();
    assert_eq!(n, 16717);
    assert_eq!(o, 4);

    let n = read_seek_u16(&d, &mut o, Endianness::Big);
    assert_eq!(n, 20556);
    assert_eq!(o, 6);
}

#[test]
fn read_seek_rejects_overflow() {
    let d = DATA.to_vec();
    let mut o = 7;

    let e = try_read_seek_u16(&d, &mut o, Endianness::Big).unwrap_err();
    assert_eq!(e.message, "Offset overflow");
    assert_eq!(o, 7);

    let mut o = 1;
    let e = try_read_seek_u64(&d, &mut o, Endianness::Big).unwrap_err();
    assert_eq!(e.variant, BinaryErrorVariant::U64);
    assert_eq!(o, 1);

    let mut o = 0;
    assert_eq!(try_read_seek_i32(&d, &mut o, Endianness::Big).unwrap(), 1163411789);
    assert_eq!(o, 4);
}

#[test]
fn iter_reads_runs() {
    let v = try_iter_u16(&DATA[0..4], 2, Endianness::Big).unwrap();
    assert_eq!(v, vec![17752, 16717]);

    let v = iter_u16(&DATA[0..4], 2, Endianness::Big);
    assert_eq!(v, vec![17752, 16717]);

    let v = try_iter_u32(&DATA, 2, Endianness::Big).unwrap();
    assert_eq!(v, vec![1163411789, 1347175713]);

    let v = try_iter_u64(&DATA, 1, Endianness::Big).unwrap();
    assert_eq!(v, vec![4996815586883028257]);

    let v = try_iter_i16(&DATA[0..4], 2, Endianness::Big).unwrap();
    assert_eq!(v, vec![17752, 16717]);
}

#[test]
fn iter_rejects_short_slice() {
    let e = try_iter_u16(&DATA[0..3], 2, Endianness::Big).unwrap_err();
    assert_eq!(e.variant, BinaryErrorVariant::U16);
}

#[test]
fn read_iter_matches_iter() {
    let v = read_iter_u16(&DATA[0..4], 2, Endianness::Big).unwrap();
    assert_eq!(v, vec![17752, 16717]);
}

#[test]
fn write_u16_both_orders() {
    let mut b = vec![0u8; 2];
    assert_eq!(try_write_u16(17752, &mut b, Endianness::Big).unwrap(), 2);
    assert_eq!(b, vec![69, 88]);

    assert_eq!(try_write_u16(17752, &mut b, Endianness::Little).unwrap(), 2);
    assert_eq!(b, vec![88, 69]);

    assert_eq!(write_u16(22597, &mut b, Endianness::Big), 2);
    assert_eq!(b, vec![88, 69]);
}

#[test]
fn write_signed_value() {
    let mut b = vec![0u8; 2];
    assert_eq!(try_write_i16(-2, &mut b, Endianness::Big).unwrap(), 2);
    assert_eq!(b, vec![255, 254]);
}

#[test]
fn write_rejects_short_buffer() {
    let mut b = vec![0u8; 1];
    let e = try_write_u16(17752, &mut b, Endianness::Big).unwrap_err();
    assert_eq!(e.message, "Buf too short");
    assert_eq!(b, vec![0]);

    let mut b = vec![0u8; 3];
    let e = try_write_u32(1, &mut b, Endianness::Big).unwrap_err();
    assert_eq!(e.variant, BinaryErrorVariant::U32);

    let mut b = vec![0u8; 7];
    let e = try_write_u64(1, &mut b, Endianness::Big).unwrap_err();
    assert_eq!(e.variant, BinaryErrorVariant::U64);
}

#[test]
fn write_exactly_fitting_buffer_succeeds() {
    let mut b = vec![0u8; 8];
    assert_eq!(try_write_u64(4996815586883028257, &mut b, Endianness::Big).unwrap(), 8);
    assert_eq!(b, DATA.to_vec());

    let mut b = vec![0u8; 8];
    assert_eq!(write_u64(4996815586883028257, &mut b, Endianness::Big), 8);
    assert_eq!(b, DATA.to_vec());
}

#[test]
fn write_seek_advances_offset() {
    let mut b = vec![0u8; 4];
    let mut o = 0;

    assert_eq!(write_seek_u16(17752, &mut b, &mut o, Endianness::Big).unwrap(), 2);
    assert_eq!(o, 2);
    assert_eq!(write_seek_u16(16717, &mut b, &mut o, Endianness::Big).unwrap(), 2);
    assert_eq!(o, 4);
    assert_eq!(b, vec![69, 88, 65, 77]);

    let e = write_seek_u16(1, &mut b, &mut o, Endianness::Big).unwrap_err();
    assert_eq!(e.message, "Buf too short");
    assert_eq!(o, 4);

    let mut b = vec![0u8; 8];
    let mut o = 0;
    assert_eq!(write_seek_u64(4996815586883028257, &mut b, &mut o, Endianness::Big).unwrap(), 8);
    assert_eq!(b, DATA.to_vec());
}

#[test]
fn write_iter_writes_runs() {
    let mut b = vec![0u8; 4];
    let n = try_write_iter_u16(vec![17752, 16717], &mut b, Endianness::Big).unwrap();
    assert_eq!(n, 4);
    assert_eq!(b, vec![69, 88, 65, 77]);

    let e = try_write_iter_u16(vec![1, 2, 3], &mut b, Endianness::Big).unwrap_err();
    assert_eq!(e.variant, BinaryErrorVariant::U16);
    assert_eq!(b, vec![69, 88, 65, 77]);

    let mut b = vec![0u8; 8];
    let n = write_iter_u32(vec![1163411789, 1347175713], &mut b, Endianness::Big);
    assert_eq!(n, 8);
    assert_eq!(b, DATA.to_vec());
}

#[test]
fn endianness_from_names() {
    assert_eq!(Endianness::from("big"), Endianness::Big);
    assert_eq!(Endianness::from("BIG"), Endianness::Big);
    assert_eq!(Endianness::from("Big"), Endianness::Big);
    assert_eq!(Endianness::from("little"), Endianness::Little);
    assert_eq!(Endianness::from("liTTle"), Endianness::Little);
}
