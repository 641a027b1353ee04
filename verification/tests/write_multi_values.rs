use binbuf::writer::Writer;
use binbuf::{BigEndian, LittleEndian, Write};

#[test]
fn test_write_multi_u8() {
    let d = vec![69u8, 88u8];
    let mut b = Writer::new();

    match d.write::<BigEndian>(&mut b) {
        Ok(n) => {
            assert_eq!(n, 2);
            assert_eq!(b.bytes(), &[69, 88]);
        }
        Err(err) => panic!("{:?}", err),
    }
}

#[test]
fn test_write_multi_u16() {
    let d = vec![17752u16, 16717u16];
    let mut b = Writer::new();

    match d.write::<BigEndian>(&mut b) {
        Ok(n) => {
            assert_eq!(n, 4);
            assert_eq!(b.bytes(), &[69, 88, 65, 77]);
        }
        Err(err) => panic!("{:?}", err),
    }
}

#[test]
fn test_write_multi_u32() {
    let d = vec![1163411789u32, 1347175713u32];
    let mut b = Writer::new();

    match d.write::<BigEndian>(&mut b) {
        Ok(n) => {
            assert_eq!(n, 8);
            assert_eq!(b.bytes(), &[69, 88, 65, 77, 80, 76, 69, 33]);
        }
        Err(err) => panic!("{:?}", err),
    }
}

#[test]
fn test_write_multi_u64() {
    let d = vec![4996815586883028257u64];
    let mut b = Writer::new();

    match d.write::<BigEndian>(&mut b) {
        Ok(n) => {
            assert_eq!(n, 8);
            assert_eq!(b.bytes(), &[69, 88, 65, 77, 80, 76, 69, 33]);
        }
        Err(err) => panic!("{:?}", err),
    }
}

#[test]
fn test_write_multi_u128() {
    let d = vec![92174978314754016623629927450611041569u128];
    let mut b = Writer::new();

    match d.write::<BigEndian>(&mut b) {
        Ok(n) => {
            assert_eq!(n, 16);
            assert_eq!(
                b.bytes(),
                &[69, 88, 65, 77, 80, 76, 69, 33, 69, 88, 65, 77, 80, 76, 69, 33]
            );
        }
        Err(err) => panic!("{:?}", err),
    }
}

#[test]
fn write_multi_little_endian() {
    let d = vec![17752u16, 16717u16];
    let mut b = Writer::new();

    let n = d.write::<LittleEndian>(&mut b).unwrap();
    assert_eq!(n, 4);
    assert_eq!(b.bytes(), &[88, 69, 77, 65]);
}

#[test]
fn write_multi_empty_collection() {
    let d: Vec<u16> = Vec::new();
    let mut b = Writer::new();

    let n = d.write::<BigEndian>(&mut b).unwrap();
    assert_eq!(n, 0);
    assert_eq!(b.len(), 0);
}

#[test]
fn write_usize_width() {
    let mut b = Writer::new();

    let n = 1usize.write::<BigEndian>(&mut b).unwrap();
    assert_eq!(n, (usize::BITS / 8) as usize);
    assert_eq!(b.bytes().last(), Some(&1));
}
