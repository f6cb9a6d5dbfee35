use webdock::soft::H264Error;
use webdock::vt::{
    avcc_and_codec, frame_duration_us, rgba_to_bgra, vt_params, VtParams, VtSample, VtState,
};

const SPS: [u8; 6] = [0x67, 0x64, 0x00, 0x1F, 0xAC, 0xD9];
const PPS: [u8; 3] = [0x68, 0xEB, 0xE3];

fn unit(nal: &[u8]) -> Vec<u8> {
    let mut v = (nal.len() as u32).to_be_bytes().to_vec();
    v.extend_from_slice(nal);
    v
}

fn sample(data: Vec<u8>, avcc: Option<Vec<u8>>) -> Option<VtSample> {
    Some(VtSample { status: 0, info_flags: 0, data, avcc, codec: "avc1.64001F".to_string() })
}

fn idr_data() -> Vec<u8> {
    let mut d = unit(&SPS);
    d.extend(unit(&PPS));
    d.extend(unit(&[0x65, 0x88, 0x84]));
    d
}

fn params() -> VtParams {
    vt_params(641, 480, 30, 4_000_000)
}

#[test]
fn hardware_session_settings() {
    let p = params();
    assert_eq!((p.width, p.height, p.fps, p.bitrate_bps, p.gop), (640, 480, 30, 4_000_000, 30));
    let q = vt_params(1, 0, 5, 1);
    assert_eq!((q.width, q.height, q.fps, q.bitrate_bps, q.gop), (2, 2, 10, 500_000, 15));
    let r = vt_params(100, 100, 240, 90_000_000);
    assert_eq!((r.fps, r.bitrate_bps, r.gop), (60, 20_000_000, 60));
    assert_eq!(frame_duration_us(30), 33_333);
    assert_eq!(frame_duration_us(0), 1_000_000);
    assert_eq!(rgba_to_bgra(&[1, 2, 3, 4, 5, 6, 7, 8, 9]), vec![3, 2, 1, 4, 7, 6, 5, 8]);
}

#[test]
fn avcc_from_parameter_sets() {
    let (b, c) = avcc_and_codec(&SPS, &PPS).unwrap();
    assert_eq!(c, "avc1.64001F");
    assert_eq!(&b[..8], &[1, 0x64, 0x00, 0x1F, 0xFF, 0xE1, 0, 6]);
    assert_eq!(&b[14..17], &[1, 0, 3]);
    assert_eq!(b.len(), 20);
    assert!(avcc_and_codec(&SPS[..3], &PPS).is_none());
    assert!(avcc_and_codec(&SPS, &[]).is_none());
}

#[test]
fn frame_checks_before_encoding() {
    let s = VtState::new(params());
    assert_eq!(s.dimensions(), (640, 480));
    assert_eq!(s.fps(), 30);
    assert_eq!(s.bitrate_bps(), 4_000_000);
    assert!(s.needs_idr());
    assert!(matches!(s.check_frame(640 * 480 * 4, 641, 481), Ok((640, 480))));
    assert_eq!(
        s.check_frame(10, 640, 480).unwrap_err().message(),
        "openh264: rgba too short".to_string()
    );
    match s.check_frame(800 * 600 * 4, 800, 600) {
        Err(H264Error::OpenH264(m)) => assert_eq!(m, "size change 640x480 → 800x600"),
        other => panic!("{:?}", other.is_ok()),
    }
}

#[test]
fn keyframe_gating_and_config() {
    let mut s = VtState::new(params());
    let (avcc, _) = avcc_and_codec(&SPS, &PPS).unwrap();
    // Nothing came back: still waiting for an IDR.
    assert!(matches!(s.finish(None, 0), Err(H264Error::Empty)));
    // A delta before any IDR is held back.
    assert!(matches!(s.finish(sample(unit(&[0x41, 0x9A]), Some(avcc.clone())), 1), Err(H264Error::Empty)));
    assert!(s.needs_idr());
    // The IDR goes out with its avcC, parameter sets stripped.
    let e = s.finish(sample(idr_data(), Some(avcc.clone())), 2).unwrap();
    assert!(e.keyframe);
    assert_eq!(e.avcc_au, unit(&[0x65, 0x88, 0x84]));
    assert_eq!(e.avcc_config.as_ref(), Some(&avcc));
    assert_eq!(e.codec, "avc1.64001F");
    assert_eq!((e.width, e.height, e.pts_us), (640, 480, 2));
    assert!(!s.needs_idr());
    // Same parameter sets: the delta carries no avcC.
    let d = s.finish(sample(unit(&[0x41, 0x9A]), Some(avcc.clone())), 3).unwrap();
    assert!(!d.keyframe);
    assert!(d.avcc_config.is_none());
    // A forced keyframe sends the avcC again.
    s.force_keyframe();
    assert!(s.needs_idr());
    let k = s.finish(sample(idr_data(), None), 4).unwrap();
    assert_eq!(k.avcc_config.as_ref(), Some(&avcc));
}

#[test]
fn failed_dropped_and_bare_samples() {
    let mut s = VtState::new(params());
    let bad = Some(VtSample { status: -12902, info_flags: 0, data: vec![], avcc: None, codec: String::new() });
    match s.finish(bad, 0) {
        Err(H264Error::OpenH264(m)) => assert_eq!(m, "VT callback status -12902"),
        _ => panic!("expected a failure"),
    }
    let dropped = Some(VtSample { status: 0, info_flags: 2, data: idr_data(), avcc: None, codec: String::new() });
    assert!(matches!(s.finish(dropped, 0), Err(H264Error::Empty)));
    assert!(matches!(s.finish(sample(unit(&[0x67, 1, 2, 3]), None), 0), Err(H264Error::Empty)));
    // An IDR before any avcC is known is refused and a keyframe stays due.
    assert!(matches!(s.finish(sample(idr_data(), None), 0), Err(H264Error::Empty)));
    assert!(s.needs_idr());
}
