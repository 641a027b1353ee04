use binbuf::writer::Writer;

#[test]
fn test_new_write_buffer() {
    let mut buf = Writer::new();
    buf.push(69);

    assert_eq!(buf.len(), 1);
    assert_eq!(buf.bytes(), &[69]);
}

#[test]
fn test_write_buffer_clear() {
    let mut buf = Writer::new();
    buf.push(69);

    assert_eq!(buf.len(), 1);
    assert_eq!(buf.bytes(), &[69]);

    buf.clear();

    assert_eq!(buf.len(), 0);
    assert_eq!(buf.bytes(), &[] as &[u8]);
}

#[test]
fn test_new_write_buffer_with() {
    let mut buf = Writer::new_with(&[69, 88]);
    buf.push(65);

    assert_eq!(buf.len(), 3);
    assert_eq!(buf.bytes(), &[69, 88, 65]);
}

#[test]
fn test_write_buffer_with_clear() {
    let mut buf = Writer::new_with(&[69, 88]);
    buf.push(65);

    assert_eq!(buf.len(), 3);
    assert_eq!(buf.bytes(), &[69, 88, 65]);

    buf.clear();

    assert_eq!(buf.len(), 0);
    assert_eq!(buf.bytes(), &[] as &[u8]);
}

#[test]
fn test_write_span_basic() {
    let mut b = Writer::new();
    b.enter();

    {
        b.enter();

        b.push(69);
        b.push(88);

        assert_eq!(b.exit(), 2)
    }

    b.write(&[65, 77]);
    assert_eq!(b.exit(), 4);
}

#[test]
fn write_span_nested_accounting() {
    let mut b = Writer::new();

    b.enter();
    b.push(1);
    b.push(2);

    b.enter();
    b.write(&[3, 4, 5]);
    assert_eq!(b.exit(), 3);

    b.push(6);
    assert_eq!(b.exit(), 6);

    assert_eq!(b.bytes(), &[1, 2, 3, 4, 5, 6]);
}

#[test]
fn exit_without_span_reports_total_length() {
    let mut b = Writer::new();
    b.write(&[1, 2, 3]);

    assert_eq!(b.exit(), 3);
    assert_eq!(b.len(), 3);
}

#[test]
fn owned_bytes_copies_contents() {
    let mut b = Writer::new();
    b.write(&[9, 8, 7]);

    let v = b.owned_bytes();
    assert_eq!(v, vec![9, 8, 7]);
    assert_eq!(b.len(), 3);
    assert!(!b.is_empty());
}
