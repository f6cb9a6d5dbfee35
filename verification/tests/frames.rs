use webdock::frame::{
    pack_h264_frame, pack_jpeg_frame, pack_png_frame, FrameError, H264Header, H264_HEADER_LEN,
    H264_TYPE_BYTE,
};
use webdock::h264::{build_avcc, codec_string_from_sps, strip_start_code};

#[test]
fn jpeg_is_raw_ff_d8() {
    let raw = vec![0xFF, 0xD8, 0xFF, 0xD9];
    let out = pack_jpeg_frame(0, &raw);
    assert_eq!(out, raw);
}

#[test]
fn h264_starts_with_01() {
    let out = pack_h264_frame(99, true, b"nal");
    assert_eq!(out[0], 0x01);
    assert_eq!(out[1], 0x01);
}

#[test]
fn h264_roundtrip_matches_swift() {
    let payload = b"\x00\x00\x00\x01fake";
    let packed = H264Header::pack(true, 1_234_567, payload);
    assert_eq!(packed[0], 0x01);
    assert_eq!(packed[1], 0x01);
    assert_eq!(packed.len(), H264_HEADER_LEN + payload.len());
    let h = H264Header::decode(&packed).unwrap();
    assert!(h.keyframe);
    assert_eq!(h.pts_us, 1_234_567);
    assert_eq!(h.payload_len, payload.len() as u32);
    assert_eq!(&packed[H264_HEADER_LEN..], payload);
}

#[test]
fn jpeg_must_not_use_type_byte_01() {
    let jpeg = [0xFFu8, 0xD8, 0xFF, 0xD9];
    assert_ne!(jpeg[0], H264_TYPE_BYTE);
}

#[test]
fn non_h264_type_rejected() {
    let mut buf = [0u8; 14];
    buf[0] = 0x03;
    assert!(matches!(H264Header::decode(&buf), Err(FrameError::UnknownType(0x03))));
}

#[test]
fn h264_header_bytes_exact() {
    let packed = H264Header::pack(false, 0x0102_0304_0506_0708, &[0xAA]);
    assert_eq!(
        packed,
        vec![1, 0, 1, 2, 3, 4, 5, 6, 7, 8, 0, 0, 0, 1, 0xAA]
    );
}

#[test]
fn short_header_rejected() {
    assert!(H264Header::decode(&[1, 1, 0]).is_err());
}

#[test]
fn png_packet_is_raw() {
    let png = vec![0x89, b'P', b'N', b'G'];
    assert_eq!(pack_png_frame(5, &png), png);
}

#[test]
fn avcc_header_shape() {
    let sps = vec![0x67, 0x42, 0xC0, 0x1E, 0x00];
    let pps = vec![0x68, 0xCE, 0x06, 0xE2];
    let box_ = build_avcc(&sps, &pps);
    assert_eq!(box_[0], 1);
    assert_eq!(box_[1], 0x42);
    assert_eq!(&box_[6..8], &(sps.len() as u16).to_be_bytes());
}

#[test]
fn avcc_record_full_layout() {
    let sps = vec![0x67, 0x4D, 0x40, 0x1F];
    let pps = vec![0x68, 0xEE];
    let b = build_avcc(&sps, &pps);
    assert_eq!(
        b,
        vec![1, 0x4D, 0x40, 0x1F, 0xFF, 0xE1, 0, 4, 0x67, 0x4D, 0x40, 0x1F, 1, 0, 2, 0x68, 0xEE]
    );
}

#[test]
fn codec_string_from_sps_hex() {
    assert_eq!(codec_string_from_sps(&[0x67, 0x42, 0xC0, 0x1E]).unwrap(), "avc1.42C01E");
    assert!(codec_string_from_sps(&[0x67, 0x42]).is_none());
}

#[test]
fn start_codes_stripped() {
    assert_eq!(strip_start_code(&[0, 0, 0, 1, 0x65]), &[0x65]);
    assert_eq!(strip_start_code(&[0, 0, 1, 0x41]), &[0x41]);
    assert_eq!(strip_start_code(&[0x67, 1]), &[0x67, 1]);
}
