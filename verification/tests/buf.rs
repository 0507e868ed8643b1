use dot001::buf::{BlendBuf, BlendSource};

#[test]
fn test_blend_buf_from_vec() {
    let data = vec![1, 2, 3, 4, 5];
    let buf = BlendBuf::from_vec(data.clone());

    assert_eq!(buf.len(), 5);
    assert_eq!(buf.as_slice(), &data);
}

#[test]
fn test_blend_buf_slicing() {
    let data = vec![0, 1, 2, 3, 4, 5, 6, 7, 8, 9];
    let buf = BlendBuf::from_vec(data);

    let slice = buf.slice(2..6).unwrap();
    assert_eq!(slice.as_slice(), &[2, 3, 4, 5]);

    assert!(buf.slice(2..2).is_err());
    assert!(buf.slice(8..15).is_err());
}

#[test]
fn slicing_edges() {
    let buf = BlendBuf::new(BlendSource::from_vec(b"hello world".to_vec()));
    assert_eq!(buf.slice(0..5).unwrap(), b"hello");
    assert_eq!(buf.slice(6..11).unwrap(), b"world");
    assert!(buf.slice(6..12).is_err());
    let reversed = buf.slice(5..3);
    assert!(reversed.is_err());
    assert!(!buf.is_empty());
    assert!(BlendBuf::from_vec(Vec::new()).is_empty());
}
