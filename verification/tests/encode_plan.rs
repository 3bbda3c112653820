use effigy_video_compressor::encode::{
    analysis_pass_args, audio_args, bitrate_error, check_output_format, encoder_family,
    keyframe_interval, mapped_preset, output_args, output_file_name, quality_name, uses_two_pass,
    runs_quality_probe, video_args, video_pixel_format, video_profile, zones_supported,
    EncodeOptions, EncoderFamily,
};

fn strings(items: &[&str]) -> Vec<String> {
    items.iter().map(|s| s.to_string()).collect()
}

fn options(codec: &str, algorithm: &str) -> EncodeOptions {
    EncodeOptions {
        codec: codec.to_string(),
        codec_name: codec.to_string(),
        crf: 24,
        quality_mode: "crf".to_string(),
        gpu_gameplay_mode: "native".to_string(),
        container: "mp4".to_string(),
        algorithm: algorithm.to_string(),
        size_name: "8mb".to_string(),
        allocation_mode: "lightweight".to_string(),
        preset: "slower".to_string(),
        svt_preset: 8,
    }
}

const BASE_X264: [&str; 27] = [
    "-hide_banner", "-i", "in.mp4", "-map", "0:v:0", "-map", "0:a:0?", "-map_metadata", "0",
    "-map_chapters", "0", "-vf", "VF", "-c:v", "libx264", "-pix_fmt", "yuv420p", "-profile:v",
    "high", "-colorspace", "bt709", "-color_primaries", "bt709", "-color_trc", "bt709", "-g", "300",
];

#[test]
fn mp4_takes_every_encoder_and_webm_only_av1() {
    assert_eq!(check_output_format("mp4", "libx264"), Ok(()));
    assert_eq!(check_output_format("webm", "libsvtav1"), Ok(()));
    assert_eq!(check_output_format("webm", "av1_nvenc"), Ok(()));
    assert_eq!(
        check_output_format("mkv", "libx264"),
        Err("Unsupported output container".to_string())
    );
    assert_eq!(
        check_output_format("webm", "libx264"),
        Err("WebM is available for AV1 encoders; choose MP4 for H.264 or H.265".to_string())
    );
}

#[test]
fn encoder_families_follow_codec_names() {
    assert_eq!(encoder_family("libsvtav1"), EncoderFamily::Svt);
    assert_eq!(encoder_family("h264_nvenc"), EncoderFamily::Nvenc);
    assert_eq!(encoder_family("hevc_amf"), EncoderFamily::Amf);
    assert_eq!(encoder_family("av1_qsv"), EncoderFamily::Qsv);
    assert_eq!(encoder_family("libx265"), EncoderFamily::Software);
}

#[test]
fn output_names_carry_the_settings() {
    assert_eq!(quality_name("dynamic", 24, "8mb"), "crf24");
    assert_eq!(quality_name("fixed", 24, "8mb"), "8mb");
    assert_eq!(
        output_file_name("clip", "x264", "720p", "30fps", "8mb", "mp4"),
        "clip-x264-720p-30fps-8mb.mp4"
    );
}

#[test]
fn pixel_format_and_profile_follow_the_codec() {
    assert_eq!(video_pixel_format("libsvtav1"), "yuv420p10le");
    assert_eq!(video_pixel_format("libx264"), "yuv420p");
    assert_eq!(video_profile("libx264"), "high");
    assert_eq!(video_profile("h264_qsv"), "high");
    assert_eq!(video_profile("hevc_nvenc"), "main");
}

#[test]
fn presets_are_mapped_per_family() {
    assert_eq!(mapped_preset(EncoderFamily::Nvenc, "slow", 8), "p5");
    assert_eq!(mapped_preset(EncoderFamily::Nvenc, "slower", 8), "p6");
    assert_eq!(mapped_preset(EncoderFamily::Nvenc, "veryslow", 8), "p7");
    assert_eq!(mapped_preset(EncoderFamily::Nvenc, "medium", 8), "p4");
    assert_eq!(mapped_preset(EncoderFamily::Amf, "medium", 8), "balanced");
    assert_eq!(mapped_preset(EncoderFamily::Amf, "slower", 8), "quality");
    assert_eq!(mapped_preset(EncoderFamily::Svt, "slower", 20), "13");
    assert_eq!(mapped_preset(EncoderFamily::Svt, "slower", 6), "6");
    assert_eq!(mapped_preset(EncoderFamily::Software, "slower", 6), "slower");
}

#[test]
fn keyframe_interval_is_clamped() {
    assert_eq!(keyframe_interval(300), 300);
    assert_eq!(keyframe_interval(50), 120);
    assert_eq!(keyframe_interval(1200), 600);
}

#[test]
fn only_x264_and_x265_get_the_probe_encode() {
    assert!(runs_quality_probe("fixed", "probe", "libx264"));
    assert!(runs_quality_probe("fixed", "probe", "libx265"));
    assert!(!runs_quality_probe("fixed", "probe", "libsvtav1"));
    assert!(!runs_quality_probe("fixed", "probe", "h264_nvenc"));
    assert!(!runs_quality_probe("fixed", "lightweight", "libx264"));
    assert!(!runs_quality_probe("dynamic", "probe", "libx264"));
}

#[test]
fn empty_budgets_are_reported() {
    assert_eq!(
        bitrate_error("fixed", 0),
        Some("Bitrate 0 kbps — clip too short for target size?".to_string())
    );
    assert_eq!(
        bitrate_error("fixed", -12),
        Some("Bitrate -12 kbps — clip too short for target size?".to_string())
    );
    assert_eq!(bitrate_error("fixed", 5), None);
    assert_eq!(bitrate_error("dynamic", -1), None);
}

#[test]
fn two_pass_is_for_software_fixed_size_encodes() {
    assert!(uses_two_pass("fixed", "libx265"));
    assert!(uses_two_pass("fixed", "libsvtav1"));
    assert!(!uses_two_pass("fixed", "h264_nvenc"));
    assert!(!uses_two_pass("dynamic", "libx264"));
    assert!(zones_supported("libx264"));
    assert!(!zones_supported("libsvtav1"));
}

#[test]
fn fixed_x264_gets_average_peak_buffer_and_zones() {
    let args = video_args(&options("libx264", "fixed"), "in.mp4", "VF", 300, 1000, Some("0,119,b=0.90"));
    let mut expected = strings(&BASE_X264);
    expected.extend(strings(&[
        "-preset", "slower", "-b:v", "1000k", "-maxrate", "2000k", "-bufsize", "2000k",
        "-x264-params", "aq-mode=3:aq-strength=0.8:psy-rd=1.0,0.15:zones=0,119,b=0.90",
    ]));
    assert_eq!(args, expected);
}

#[test]
fn fixed_svt_av1_gets_the_average_only() {
    let args = video_args(&options("libsvtav1", "fixed"), "in.mp4", "VF", 300, 1000, None);
    assert_eq!(args[14], "libsvtav1");
    assert_eq!(args[16], "yuv420p10le");
    assert_eq!(args[18], "main");
    assert_eq!(
        args[27..].to_vec(),
        strings(&[
            "-preset", "8", "-b:v", "1000k", "-svtav1-params",
            "rc=1:tune=0:enable-variance-boost=1:variance-boost-strength=2:aq-mode=2:ac-bias=1.0",
        ])
    );
}

#[test]
fn fixed_nvenc_uses_vbr_with_tested_gameplay_tuning() {
    let mut o = options("h264_nvenc", "fixed");
    o.preset = "slow".to_string();
    o.gpu_gameplay_mode = "nvenc_aq".to_string();
    let args = video_args(&o, "in.mp4", "VF", 600, 500, None);
    assert_eq!(
        args[27..].to_vec(),
        strings(&[
            "-preset", "p5", "-b:v", "500k", "-maxrate", "1000k", "-bufsize", "1000k", "-rc", "vbr",
            "-multipass", "fullres", "-spatial-aq", "1", "-temporal-aq", "1", "-aq-strength", "8",
            "-rc-lookahead", "32",
        ])
    );
}

#[test]
fn fixed_amf_and_qsv_without_tuning() {
    let args = video_args(&options("h264_amf", "fixed"), "in.mp4", "VF", 300, 800, None);
    assert_eq!(
        args[27..].to_vec(),
        strings(&["-quality", "quality", "-b:v", "800k", "-maxrate", "1600k", "-bufsize", "1600k", "-rc", "vbr_peak"])
    );
    let args = video_args(&options("hevc_qsv", "fixed"), "in.mp4", "VF", 300, 800, None);
    assert_eq!(
        args[27..].to_vec(),
        strings(&["-preset", "slower", "-b:v", "800k", "-maxrate", "1600k", "-bufsize", "1600k"])
    );
}

#[test]
fn quality_modes_per_family() {
    let mut o = options("hevc_amf", "dynamic");
    o.quality_mode = "amf_quality_fallback".to_string();
    let args = video_args(&o, "in.mp4", "VF", 300, 0, None);
    assert_eq!(
        args[27..].to_vec(),
        strings(&["-quality", "quality", "-rc", "cqp", "-qp_i", "24", "-qp_p", "24"])
    );
    let mut o = options("h264_amf", "dynamic");
    o.quality_mode = "amf_qvbr".to_string();
    o.preset = "medium".to_string();
    let args = video_args(&o, "in.mp4", "VF", 300, 0, None);
    assert_eq!(
        args[27..].to_vec(),
        strings(&["-quality", "balanced", "-rc", "qvbr", "-qvbr_quality_level", "24"])
    );
    let mut o = options("libx265", "dynamic");
    o.crf = 60;
    let args = video_args(&o, "in.mp4", "VF", 300, 0, None);
    assert_eq!(
        args[27..].to_vec(),
        strings(&["-preset", "slower", "-crf", "51", "-x265-params", "aq-mode=3"])
    );
    let args = video_args(&options("av1_nvenc", "dynamic"), "in.mp4", "VF", 300, 0, None);
    assert_eq!(
        args[27..].to_vec(),
        strings(&["-preset", "p6", "-rc", "vbr", "-cq", "24", "-b:v", "0"])
    );
    let args = video_args(&options("libsvtav1", "dynamic"), "in.mp4", "VF", 300, 0, None);
    assert_eq!(
        args[27..].to_vec(),
        strings(&[
            "-preset", "8", "-crf", "24", "-svtav1-params",
            "tune=0:enable-variance-boost=1:variance-boost-strength=2:aq-mode=2:ac-bias=1.0",
        ])
    );
}

#[test]
fn audio_output_and_analysis_arguments() {
    assert_eq!(
        audio_args("webm", 6, 96),
        strings(&["-c:a", "libopus", "-b:a", "96k", "-ar", "48000", "-ac", "2"])
    );
    assert_eq!(
        audio_args("mp4", 1, 80),
        strings(&["-c:a", "aac", "-b:a", "80k", "-ar", "48000", "-ac", "1"])
    );
    assert!(audio_args("mp4", 0, 80).is_empty());
    assert_eq!(
        output_args("mp4", "out.mp4"),
        strings(&["-movflags", "+faststart", "-progress", "pipe:1", "-nostats", "-fps_mode", "cfr", "-y", "out.mp4"])
    );
    assert_eq!(
        output_args("webm", "out.webm"),
        strings(&["-progress", "pipe:1", "-nostats", "-fps_mode", "cfr", "-y", "out.webm"])
    );
    assert_eq!(analysis_pass_args(true).last().unwrap(), "NUL");
    assert_eq!(
        analysis_pass_args(false),
        strings(&["-c:a", "copy", "-progress", "pipe:1", "-nostats", "-fps_mode", "cfr", "-y", "-f", "null", "/dev/null"])
    );
}
