use nrf_unifying::buffer::ByteBuf;

#[test]
fn bytes_in_place() {
    let mut buf: ByteBuf<4> = ByteBuf::new();
    assert_eq!(buf.len(), 0);
    buf.push(1);
    buf.push(2);
    buf.push(3);
    assert_eq!(buf.as_slice(), &[1, 2, 3]);
    buf.drop_front(2);
    assert_eq!(buf.as_slice(), &[3]);
    let cut: ByteBuf<4> = ByteBuf::from_slice(&[9, 8, 7, 6, 5]);
    assert_eq!(cut.as_slice(), &[9, 8, 7, 6]);
}
