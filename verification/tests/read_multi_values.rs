use binbuf::reader::{Error, Reader};
use binbuf::{BigEndian, ReadableMulti};

#[test]
fn test_read_multi_u8() {
    let b = vec![69, 88, 65, 77, 80, 76, 69, 33];
    let mut b = Reader::new(b.as_slice());

    let [v1, v2] = match u8::read_multi::<BigEndian, 2>(&mut b) {
        Ok(n) => n,
        Err(err) => panic!("{:?}", err),
    };

    assert_eq!(v1, 69);
    assert_eq!(v2, 88);
}

#[test]
fn test_read_multi_u16() {
    let b = vec![69, 88, 65, 77, 80, 76, 69, 33];
    let mut b = Reader::new(b.as_slice());

    let [v1, v2] = match u16::read_multi::<BigEndian, 2>(&mut b) {
        Ok(n) => n,
        Err(err) => panic!("{:?}", err),
    };

    assert_eq!(v1, 17752);
    assert_eq!(v2, 16717);
}

#[test]
fn test_read_multi_u32() {
    let b = vec![69, 88, 65, 77, 80, 76, 69, 33];
    let mut b = Reader::new(b.as_slice());

    let [v1, v2] = match u32::read_multi::<BigEndian, 2>(&mut b) {
        Ok(n) => n,
        Err(err) => panic!("{:?}", err),
    };

    assert_eq!(v1, 1163411789);
    assert_eq!(v2, 1347175713);
}

#[test]
fn test_read_multi_u64() {
    let b = vec![69, 88, 65, 77, 80, 76, 69, 33];
    let mut b = Reader::new(b.as_slice());

    let [v] = match u64::read_multi::<BigEndian, 1>(&mut b) {
        Ok(n) => n,
        Err(err) => panic!("{:?}", err),
    };

    assert_eq!(v, 4996815586883028257);
}

#[test]
fn test_read_multi_u128() {
    let b = vec![
        69, 88, 65, 77, 80, 76, 69, 33, 69, 88, 65, 77, 80, 76, 69, 33,
    ];
    let mut b = Reader::new(b.as_slice());

    let [v] = match u128::read_multi::<BigEndian, 1>(&mut b) {
        Ok(n) => n,
        Err(err) => panic!("{:?}", err),
    };

    assert_eq!(v, 92174978314754016623629927450611041569)
}

#[test]
fn read_multi_consumes_whole_runs_before_failing() {
    let b = vec![69, 88, 65, 77, 80, 76, 69, 33];
    let mut b = Reader::new(b.as_slice());

    let e = u16::read_multi::<BigEndian, 5>(&mut b).unwrap_err();
    assert_eq!(e, Error::BufferTooShort);
    assert_eq!(b.offset(), 8);
    assert_eq!(b.len(), 0);
}

#[test]
fn read_multi_be_and_le() {
    let b = vec![1, 2, 3, 4];
    let mut r = Reader::new(b.as_slice());
    let [x, y] = u16::read_multi_be::<2>(&mut r).unwrap();
    assert_eq!(x, 258);
    assert_eq!(y, 772);

    let mut r = Reader::new(b.as_slice());
    let [x, y] = u16::read_multi_le::<2>(&mut r).unwrap();
    assert_eq!(x, 513);
    assert_eq!(y, 1027);
}
