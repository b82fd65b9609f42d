use pulse::audio::{
    decode_buffer, encode_buffer, fill_output, is_audible, keep_written, BITRATE, FRAME_SIZE,
    SAMPLE_RATE, SENSITIVITY,
};

#[test]
fn constants() {
    assert_eq!(SAMPLE_RATE, 48_000);
    assert_eq!(FRAME_SIZE, 960);
    assert_eq!(BITRATE, 64_000);
    assert_eq!(SENSITIVITY, 32);
}

#[test]
fn quiet_buffers_are_not_sent() {
    assert!(!is_audible(&[]));
    assert!(!is_audible(&[0, 1, -1, 32, -32, 31]));
}

#[test]
fn one_loud_sample_is_enough() {
    assert!(is_audible(&[0, 0, 33]));
    assert!(is_audible(&[-33, 0]));
    assert!(is_audible(&[i16::MAX]));
    assert!(is_audible(&[i16::MIN + 1]));
}

#[test]
fn frame_shorter_than_buffer_is_padded() {
    let mut out = [7i16; 5];
    fill_output(&mut out, Some(&[1, 2, 3]));
    assert_eq!(out, [1, 2, 3, 0, 0]);
}

#[test]
fn frame_longer_than_buffer_is_cut() {
    let mut out = [7i16; 2];
    fill_output(&mut out, Some(&[1, 2, 3]));
    assert_eq!(out, [1, 2]);
}

#[test]
fn no_frame_means_silence() {
    let mut out = [7i16; 4];
    fill_output(&mut out, None);
    assert_eq!(out, [0; 4]);
    let mut empty: [i16; 0] = [];
    fill_output(&mut empty, Some(&[1]));
}

#[test]
fn codec_buffers() {
    assert_eq!(encode_buffer(960), vec![0u8; 1920]);
    assert_eq!(encode_buffer(0), Vec::<u8>::new());
    assert_eq!(decode_buffer(), vec![0i16; 960]);
}

#[test]
fn keep_written_cuts_to_size() {
    assert_eq!(keep_written(vec![1u8, 2, 3, 4], 2), vec![1, 2]);
    assert_eq!(keep_written(vec![1u8, 2], 5), vec![1, 2]);
    assert_eq!(keep_written(vec![1i16, 2], 0), Vec::<i16>::new());
}
