use openh264::encoder::{
    BitRate, Complexity, Encoder, EncoderConfig, FrameRate, IntraFramePeriod, Level, Profile,
    QpRange, RateControlMode, UsageType,
};
use openh264::OpenH264API;
use webdock::soft::{
    assemble_access_unit, soft_params, EncoderOutput, FrameKind, H264Error, H264SoftEncoder,
};

fn open_soft(width: u32, height: u32, fps: u32, bitrate: u32) -> Result<H264SoftEncoder, H264Error> {
    let p = soft_params(width, height, fps, bitrate);
    let cfg = EncoderConfig::new()
        .bitrate(BitRate::from_bps(p.bitrate_bps))
        .max_frame_rate(FrameRate::from_hz(p.fps as f32))
        .usage_type(UsageType::ScreenContentRealTime)
        .rate_control_mode(RateControlMode::Bitrate)
        .skip_frames(false)
        .profile(Profile::Main)
        .level(Level::Level_4_0)
        .complexity(Complexity::Medium)
        .qp(QpRange::new(18, 40))
        .intra_frame_period(IntraFramePeriod::from_num_frames(p.gop))
        .adaptive_quantization(false)
        .scene_change_detect(true)
        .num_threads(0);
    let enc = Encoder::with_api_config(OpenH264API::from_source(), cfg)
        .map_err(|e| H264Error::OpenH264(e.to_string()))?;
    Ok(H264SoftEncoder::from_encoder(enc, p))
}

#[test]
fn encode_solid_frame_produces_key_and_avcc() {
    let w = 64u32;
    let h = 64u32;
    let mut enc = open_soft(w, h, 30, 1_500_000).expect("encoder");
    let mut rgba = vec![0u8; (w * h * 4) as usize];
    for px in rgba.chunks_mut(4) {
        px[0] = 40;
        px[1] = 120;
        px[2] = 200;
        px[3] = 255;
    }
    let out = enc.encode_rgba(&rgba, w, h, 0).expect("first frame should encode");
    assert!(out.keyframe, "first frame should be key");
    assert!(!out.avcc_au.is_empty());
    assert!(out.avcc_config.is_some(), "avcC config must be present for WebCodecs");
    for px in rgba.chunks_mut(4) {
        px[0] = 200;
    }
    let out2 = enc.encode_rgba(&rgba, w, h, 33_000).expect("P frame");
    assert!(!out2.avcc_au.is_empty());
}

#[test]
fn encode_1080p_is_realtime_enough() {
    let w = 1280u32;
    let h = 720u32;
    let mut enc = open_soft(w, h, 24, 4_000_000).expect("encoder");
    let mut rgba = vec![0u8; (w * h * 4) as usize];
    for (i, px) in rgba.chunks_mut(4).enumerate() {
        px[0] = (i % 255) as u8;
        px[1] = 80;
        px[2] = 160;
        px[3] = 255;
    }
    let t0 = std::time::Instant::now();
    let n = 5;
    for i in 0..n {
        for px in rgba.chunks_mut(4) {
            px[0] = px[0].wrapping_add(1);
        }
        let out = enc.encode_rgba(&rgba, w, h, i * 40_000).expect("encode 720p");
        assert!(!out.avcc_au.is_empty());
        if i == 0 {
            assert!(out.keyframe);
        }
    }
    let avg_ms = t0.elapsed().as_secs_f64() * 1000.0 / n as f64;
    println!("720p avg encode {avg_ms:.1} ms");
    assert!(avg_ms < 2000.0, "encoder path seems hung: {avg_ms} ms");
}

#[test]
fn soft_params_clamp() {
    let p = soft_params(101, 1, 5, 100);
    assert_eq!((p.width, p.height, p.fps, p.bitrate_bps, p.gop), (100, 2, 10, 1_500_000, 15));
    let p = soft_params(1920, 1080, 90, 20_000_000);
    assert_eq!((p.width, p.height, p.fps, p.bitrate_bps, p.gop), (1920, 1080, 60, 12_000_000, 60));
}

#[test]
fn short_buffer_is_refused_with_sizes() {
    let mut enc = open_soft(4, 4, 30, 1_500_000).expect("encoder");
    match enc.encode_rgba(&[0u8; 10], 5, 4, 0) {
        Err(H264Error::OpenH264(m)) => assert_eq!(m, "rgba buffer too short: 10 < 64 for 4x4"),
        _ => panic!("expected a short-buffer error"),
    }
}

#[test]
fn access_unit_from_nal_units() {
    let out = EncoderOutput {
        kind: FrameKind::P,
        layers: 1,
        nals: vec![
            vec![0, 0, 0, 1, 0x67, 0x42, 0x00, 0x1E],
            vec![0, 0, 1, 0x68, 0xCE],
            vec![0, 0, 0, 1, 0x65, 0x88],
            vec![0, 0, 0, 1],
        ],
    };
    let au = assemble_access_unit(&out);
    assert!(au.keyframe, "an IDR unit makes a keyframe");
    assert_eq!(au.params, vec![vec![0x67, 0x42, 0x00, 0x1E], vec![0x68, 0xCE]]);
    assert_eq!(au.vcl_avcc, vec![0, 0, 0, 2, 0x65, 0x88]);
    let skipped = EncoderOutput { kind: FrameKind::Skip, layers: 1, nals: out.nals.clone() };
    let au = assemble_access_unit(&skipped);
    assert!(au.vcl_avcc.is_empty() && au.params.is_empty() && !au.keyframe);
}

#[test]
fn error_messages() {
    assert_eq!(H264Error::Empty.message(), "no NAL data");
    assert_eq!(H264Error::OpenH264("x".into()).message(), "openh264: x");
}
