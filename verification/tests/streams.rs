use wgpu_mc_jni::stream::{bytes_from_jbytes, StreamDigest, StreamStep, BUFFER_LEN};

#[test]
fn reads_are_put_together() {
    let mut digest = StreamDigest::new();
    assert_eq!(digest.feed(3, &[1, -1, 2, 99]), StreamStep::ReadOn);
    assert_eq!(digest.feed(1, &[-128, 5, 5, 5]), StreamStep::ReadOn);
    assert_eq!(digest.feed(-1, &[7, 7, 7, 7]), StreamStep::Finish);
    assert_eq!(digest.data, vec![1, 255, 2, 128]);
    assert_eq!(digest.finish(), vec![1, -1, 2, -128]);
}

#[test]
fn a_read_of_nothing_is_the_end() {
    let mut digest = StreamDigest::new();
    assert_eq!(digest.feed(0, &[1]), StreamStep::Finish);
    assert!(digest.finish().is_empty());
}

#[test]
fn whole_buffers_are_taken() {
    assert_eq!(BUFFER_LEN, 1024);
    let buffer: Vec<i8> = (0..1024).map(|i| i as i8).collect();
    let mut digest = StreamDigest::new();
    digest.feed(1024, &buffer);
    digest.feed(1024, &buffer);
    let mut twice = buffer.clone();
    twice.extend(&buffer);
    assert_eq!(digest.finish(), twice);
}

#[test]
fn bytes_keep_their_bits() {
    assert_eq!(bytes_from_jbytes(&[0, 127, -128, -1]), vec![0, 127, 128, 255]);
}
