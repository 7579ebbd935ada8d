use cinemotion::channel_buf::ChannelBuffer;

#[test]
fn test_channel_buffer_lifetime() {
    let mut buf = ChannelBuffer::new(5);

    buf.push(1);
    buf.push(2);
    buf.push(3);
    let flush = buf.flush();
    assert_eq!(flush, vec![1, 2, 3]);

    buf.push(4);
    buf.push(5);
    buf.push(6);
    let flush = buf.flush();
    assert_eq!(flush, vec![4, 5, 6]);

    buf.push(4);
    buf.push(5);
    buf.push(6);
    let flush = buf.flush();
    assert_eq!(flush, vec![4, 5, 6]);

    for i in 1..=7 {
        buf.push(i);
    }
    let flush = buf.flush();
    assert_eq!(flush.len(), 5);
}

#[test]
fn full_buffer_keeps_the_most_recent_items() {
    let mut buf = ChannelBuffer::new(3);
    for i in 1..=7 {
        buf.push(i);
    }
    assert_eq!(buf.flush(), vec![5, 6, 7]);
    assert_eq!(buf.flush(), Vec::<i32>::new());
    assert_eq!(buf.capacity(), 3);
}

#[test]
fn zero_capacity_buffer_keeps_everything() {
    let mut buf = ChannelBuffer::new(0);
    buf.push('a');
    buf.push('b');
    assert_eq!(buf.flush(), vec!['a', 'b']);
}
