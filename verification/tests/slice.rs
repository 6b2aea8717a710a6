use gjio::slice::Slice;
use gjio::Network;

#[test]
fn slice_keeps_buffer_and_end() {
    let s = Slice::new(vec![1u8, 2, 3], 2);
    assert_eq!(s.buf, vec![1u8, 2, 3]);
    assert_eq!(s.end, 2);
}

#[test]
fn slice_bytes_are_the_prefix() {
    let s = Slice::new(b"hello world".to_vec(), 5);
    assert_eq!(s.as_ref(), b"hello");
    let full = Slice::new(vec![9u8; 4], 4);
    assert_eq!(full.as_ref(), &[9u8, 9, 9, 9][..]);
    let none = Slice::new(vec![9u8; 4], 0);
    assert!(none.as_ref().is_empty());
}

#[test]
fn network_holds_its_reactor() {
    let n = Network::new(17u32);
    assert_eq!(*n.reactor(), 17);
}
