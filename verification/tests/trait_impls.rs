use binbuf::reader::Reader;
use binbuf::writer::Writer;
use binbuf::{BigEndian, ByteOrder, LittleEndian, Read, Write};

struct ReadData {
    inner: u16,
}

impl Read for ReadData {
    fn lemma_size_pos() {}

    fn size() -> usize {
        2
    }

    fn read<E: ByteOrder>(buf: &mut Reader) -> binbuf::reader::Result<ReadData> {
        let inner = u16::read::<E>(buf)?;

        Ok(ReadData { inner })
    }

    fn read_be(buf: &mut Reader) -> binbuf::reader::Result<ReadData> {
        Self::read::<BigEndian>(buf)
    }

    fn read_le(buf: &mut Reader) -> binbuf::reader::Result<ReadData> {
        Self::read::<LittleEndian>(buf)
    }
}

#[test]
fn test_readable_impl() {
    let b = vec![69, 88, 65, 77, 80, 76, 69, 33];
    let mut buf = Reader::new(b.as_slice());

    let data = ReadData::read::<BigEndian>(&mut buf).unwrap();
    assert_eq!(data.inner, 17752)
}

struct WriteData {
    inner: u16,
}

impl Write for WriteData {
    fn write<E: ByteOrder>(&self, buf: &mut Writer) -> binbuf::writer::Result {
        self.inner.write::<E>(buf)
    }

    fn write_be(&self, buf: &mut Writer) -> binbuf::writer::Result {
        self.write::<BigEndian>(buf)
    }

    fn write_le(&self, buf: &mut Writer) -> binbuf::writer::Result {
        self.write::<LittleEndian>(buf)
    }
}

#[test]
fn test_writeable_impl() {
    let d = WriteData { inner: 17752 };

    let mut b = Writer::new();
    match d.write::<BigEndian>(&mut b) {
        Ok(n) => {
            assert_eq!(n, 2);
            assert_eq!(b.bytes(), &[69, 88]);
        }
        Err(err) => panic!("{:?}", err),
    };
}
