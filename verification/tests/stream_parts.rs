use ascii_webcam::logging::{app_dir, capture_dir_of, log_file_of};
use std::path::PathBuf;
use ascii_webcam::logging::{capture_dir, data_dir, log_file};
use ascii_webcam::stream::{
    encode_frame, output_head, part_head, part_tail, stream_head, OUTPUT_BOUNDARY,
    STREAM_BOUNDARY,
};
use ascii_webcam::v4l2::{output_format, V4L2_FIELD_NONE, V4L2_PIX_FMT_RGB24};

#[test]
fn encodes_frames_as_jpeg() {
    let rgb: Vec<u8> = (0..(16 * 8 * 3)).map(|i| (i * 7 % 256) as u8).collect();
    let jpeg = encode_frame(&rgb, 16, 8).expect("encodes");
    assert_eq!(&jpeg[..2], &[0xFF, 0xD8]);
    assert_eq!(&jpeg[jpeg.len() - 2..], &[0xFF, 0xD9]);
    assert_ne!(jpeg, rgb);
    // the same frame encodes to the same bytes
    assert_eq!(encode_frame(&rgb, 16, 8), Some(jpeg));
}

#[test]
fn refuses_short_buffers_and_empty_sizes() {
    let rgb = vec![0u8; 10];
    assert_eq!(encode_frame(&rgb, 2, 2), None);
    assert_eq!(encode_frame(&[], 0, 5), None);
    assert_eq!(encode_frame(&[], 5, 0), None);
    let wide = vec![0u8; 70000 * 3];
    assert_eq!(encode_frame(&wide, 70000, 1), None);
}

#[test]
fn stream_texts() {
    assert_eq!(STREAM_BOUNDARY, "ascii-webcam-boundary");
    assert_eq!(OUTPUT_BOUNDARY, "ascii-webcam");
    assert_eq!(
        stream_head(),
        "HTTP/1.1 200 OK\r\nContent-Type: multipart/x-mixed-replace; boundary=ascii-webcam-boundary\r\nConnection: close\r\nCache-Control: no-cache\r\n\r\n--ascii-webcam-boundary\r\n"
    );
    assert_eq!(
        output_head(),
        "HTTP/1.1 200 OK\r\nContent-Type: multipart/x-mixed-replace; boundary=ascii-webcam\r\n\r\n--ascii-webcam\r\n"
    );
    assert_eq!(part_head(1234), "Content-Type: image/jpeg\r\nContent-Length: 1234\r\n\r\n");
    assert_eq!(part_head(0), "Content-Type: image/jpeg\r\nContent-Length: 0\r\n\r\n");
    assert_eq!(part_tail(STREAM_BOUNDARY), "\r\n--ascii-webcam-boundary\r\n");
}

#[test]
fn v4l2_format() {
    let f = output_format(640, 480);
    assert_eq!((f.width, f.height), (640, 480));
    assert_eq!(f.pixelformat, V4L2_PIX_FMT_RGB24);
    assert_eq!(f.pixelformat.to_le_bytes(), *b"BGR3");
    assert_eq!(f.field, V4L2_FIELD_NONE);
    assert_eq!(f.bytesperline, 1920);
    assert_eq!(f.sizeimage, 921600);
}

#[test]
fn files_live_under_the_data_directory() {
    let base = data_dir();
    assert!(base.ends_with("ascii-webcam"));
    assert_eq!(log_file(), base.join("logs").join("ascii-webcam.log"));
    assert_eq!(capture_dir(), base.join("captures"));
}

#[test]
fn directories_follow_the_platform_answer() {
    let home = PathBuf::from("/home/u/.local/share");
    assert_eq!(app_dir(Some(home.clone())), PathBuf::from("/home/u/.local/share/ascii-webcam"));
    assert_eq!(app_dir(None), PathBuf::from("./ascii-webcam"));
    assert_eq!(
        log_file_of(Some(home.clone())),
        PathBuf::from("/home/u/.local/share/ascii-webcam/logs/ascii-webcam.log")
    );
    assert_eq!(log_file_of(None), PathBuf::from("./ascii-webcam/logs/ascii-webcam.log"));
    assert_eq!(capture_dir_of(Some(home)), PathBuf::from("/home/u/.local/share/ascii-webcam/captures"));
    assert_eq!(capture_dir_of(None), PathBuf::from("./ascii-webcam/captures"));
}
