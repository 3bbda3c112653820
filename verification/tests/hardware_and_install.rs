use effigy_video_compressor::gpu::{compact_gpu_name, gpu_for_family, gpu_names};
use effigy_video_compressor::hardware::{
    amf_fallback_args, encoder_candidates, encoder_test_args, gameplay_test_args, needs_amf_fallback,
    probe_result, quality_test_args, test_pixel_format,
};
use effigy_video_compressor::install::{
    build_variant, detect_svt_version, ffmpeg_build_id, ffmpeg_check, first_line, is_git_build,
    svt_major, update_available,
};

fn strings(items: &[&str]) -> Vec<String> {
    items.iter().map(|s| s.to_string()).collect()
}

#[test]
fn adapter_names_lose_their_brand_words() {
    assert_eq!(compact_gpu_name("AMD Radeon RX 7800 XT"), "RX 7800 XT");
    assert_eq!(compact_gpu_name("Intel(R) Arc(TM) A770 Graphics"), "A770");
    assert_eq!(compact_gpu_name("NVIDIA GeForce RTX 4070"), "RTX 4070");
    assert_eq!(compact_gpu_name("NVIDIA"), "NVIDIA");
    assert_eq!(compact_gpu_name("  Quadro   P4000 "), "Quadro P4000");
}

#[test]
fn families_are_labelled_with_their_adapters() {
    let gpus = strings(&["NVIDIA GeForce RTX 4070", "Intel(R) UHD Graphics 770", "NVIDIA Quadro P4000"]);
    assert_eq!(gpu_for_family(&gpus, "nvenc"), "RTX 4070 + Quadro P4000");
    assert_eq!(gpu_for_family(&gpus, "qsv"), "UHD 770");
    assert_eq!(gpu_for_family(&gpus, "amf"), "Compatible GPU");
    assert_eq!(gpu_for_family(&gpus, "software"), "CPU");
    assert_eq!(gpu_for_family(&[], "nvenc"), "Compatible GPU");
}

#[test]
fn adapter_listing_drops_blank_lines() {
    assert_eq!(
        gpu_names("NVIDIA GeForce RTX 4070\r\n\r\n  Intel(R) UHD Graphics 770  \r\n"),
        strings(&["NVIDIA GeForce RTX 4070", "Intel(R) UHD Graphics 770"])
    );
    assert!(gpu_names("").is_empty());
}

#[test]
fn candidate_encoders_are_listed_in_order() {
    let cs = encoder_candidates();
    assert_eq!(cs.len(), 10);
    assert_eq!((cs[0].codec.as_str(), cs[0].family.as_str()), ("libsvtav1", "software"));
    assert_eq!(
        (cs[5].codec.as_str(), cs[5].codec_name.as_str(), cs[5].label.as_str(), cs[5].family.as_str()),
        ("hevc_amf", "h265-amf", "H.265 (AMF)", "amf")
    );
    assert_eq!(cs[9].codec, "av1_qsv");
}

#[test]
fn test_encodes_use_the_family_options() {
    assert_eq!(test_pixel_format("libsvtav1"), "yuv420p10le");
    assert_eq!(test_pixel_format("h264_qsv"), "nv12");
    assert_eq!(
        encoder_test_args("h264_nvenc", "nv12", strings(&["-rc", "vbr"])),
        strings(&[
            "-hide_banner", "-loglevel", "error", "-f", "lavfi", "-i", "color=black:s=640x360:r=30",
            "-frames:v", "1", "-an", "-c:v", "h264_nvenc", "-pix_fmt", "nv12", "-rc", "vbr", "-f", "null", "-",
        ])
    );
    assert_eq!(quality_test_args("nvenc"), strings(&["-rc", "vbr", "-cq", "24", "-b:v", "0"]));
    assert_eq!(quality_test_args("amf"), strings(&["-rc", "qvbr", "-qvbr_quality_level", "24"]));
    assert_eq!(quality_test_args("qsv"), strings(&["-global_quality", "24"]));
    assert_eq!(quality_test_args("software"), strings(&["-crf", "24"]));
    assert_eq!(amf_fallback_args(), strings(&["-rc", "cqp", "-qp_i", "24", "-qp_p", "24"]));
    assert_eq!(
        gameplay_test_args("qsv"),
        strings(&[
            "-b:v", "500k", "-maxrate", "625k", "-bufsize", "1000k", "-extbrc", "1",
            "-look_ahead_depth", "40", "-adaptive_i", "1", "-adaptive_b", "1",
        ])
    );
    assert!(gameplay_test_args("software").is_empty());
    assert!(needs_amf_fallback("amf", true, false));
    assert!(!needs_amf_fallback("amf", false, false));
    assert!(!needs_amf_fallback("nvenc", true, false));
}

#[test]
fn tested_encoders_are_reported_with_their_modes() {
    let cs = encoder_candidates();
    let gpus = strings(&["NVIDIA GeForce RTX 4070"]);
    assert!(probe_result(&cs[1], &gpus, false, false, None, false).is_none());
    let nvenc = probe_result(&cs[1], &gpus, true, true, None, true).unwrap();
    assert_eq!(nvenc.codec, "h264_nvenc");
    assert_eq!(nvenc.gpu, "RTX 4070");
    assert_eq!(nvenc.quality_mode, "nvenc_cqvbr");
    assert_eq!(nvenc.gameplay_mode, "nvenc_aq");
    let untuned = probe_result(&cs[1], &gpus, true, true, None, false).unwrap();
    assert_eq!(untuned.gameplay_mode, "internal");
    let amf = probe_result(&cs[4], &gpus, true, false, Some(true), true).unwrap();
    assert_eq!(amf.quality_mode, "amf_quality_fallback");
    assert_eq!(amf.gameplay_mode, "amf_preanalysis");
    assert_eq!(amf.gpu, "Compatible GPU");
    assert!(probe_result(&cs[4], &gpus, true, false, Some(false), true).is_none());
    let svt = probe_result(&cs[0], &gpus, true, true, None, false).unwrap();
    assert_eq!((svt.gpu.as_str(), svt.quality_mode.as_str(), svt.gameplay_mode.as_str()), ("CPU", "crf", "native"));
}

#[test]
fn svt_version_is_read_from_the_encoder_banner() {
    let log = "[libsvtav1 @ 0x1] banner\nSvt[info]: SVT [version]:\tSVT-AV1 Encoder Lib v3.0.2 \r\nSvt[info]: other\n";
    assert_eq!(detect_svt_version(log), "3.0.2");
    assert_eq!(detect_svt_version("no encoder here\n"), "");
    assert_eq!(detect_svt_version(""), "");
}

#[test]
fn svt_major_reads_the_leading_number() {
    assert_eq!(svt_major("v3.1.2"), Some(3));
    assert_eq!(svt_major("2.3.0"), Some(2));
    assert_eq!(svt_major("vv4"), Some(4));
    assert_eq!(svt_major("+7.0"), Some(7));
    assert_eq!(svt_major(""), None);
    assert_eq!(svt_major("x.1"), None);
    assert_eq!(svt_major("4294967296.0"), None);
    assert_eq!(svt_major("4294967295"), Some(4294967295));
}

#[test]
fn build_identification() {
    assert_eq!(
        ffmpeg_build_id("ffmpeg version 7.1-full_build-www.gyan.dev Copyright (c) 2000-2024"),
        "7.1-full_build-www.gyan.dev"
    );
    assert_eq!(ffmpeg_build_id("something else"), "something");
    assert_eq!(ffmpeg_build_id(""), "");
    assert!(is_git_build("2024-10-31-git-87068b9600-full_build-www.gyan.dev"));
    assert!(!is_git_build("7.1-full_build-www.gyan.dev"));
    assert_eq!(build_variant("configuration: --enable-gpl ... FULL_BUILD"), "full");
    assert_eq!(build_variant("7.1-essentials_build-www.gyan.dev"), "essentials");
    assert_eq!(build_variant("ffmpeg version n7.1"), "custom");
    assert_eq!(first_line("ffmpeg version 7.1\r\nbuilt with gcc\n"), "ffmpeg version 7.1");
    assert_eq!(first_line(""), "");
}

#[test]
fn updates_are_offered_for_new_releases_and_old_svt() {
    assert!(!update_available("7.1-full_build-www.gyan.dev", "7.1", "4.0.0"));
    assert!(update_available("7.1-full_build-www.gyan.dev", "7.1", "3.0.2"));
    assert!(update_available("7.0.2-full_build-www.gyan.dev", "7.1", ""));
    assert!(update_available("7.1", "", "2.3.0"));
    assert!(!update_available("7.1", "", "v4.0"));
}

#[test]
fn installation_report() {
    let version = "ffmpeg version 7.0.2-full_build-www.gyan.dev Copyright (c) 2000-2024".to_string();
    let output = format!("{version}\nconfiguration: --enable-gpl\n");
    let check = ffmpeg_check(
        Some(("C:\\FFmpeg\\ffmpeg.exe".to_string(), "local".to_string())),
        true,
        version.clone(),
        &output,
        "7.1".to_string(),
        "3.0.2".to_string(),
    );
    assert!(check.ffmpeg_ok && check.ffprobe_ok);
    assert_eq!(check.ffmpeg_version, version);
    assert_eq!(check.source, "local");
    assert_eq!(check.path, "C:\\FFmpeg\\ffmpeg.exe");
    assert_eq!(check.build_variant, "full");
    assert!(check.full_build);
    assert_eq!(check.latest_version, "7.1");
    assert_eq!(check.svt_version, "3.0.2");
    assert!(check.update_available);

    let missing = ffmpeg_check(None, false, String::new(), "", String::new(), String::new());
    assert!(!missing.ffmpeg_ok && !missing.ffprobe_ok);
    assert_eq!(missing.source, "missing");
    assert_eq!(missing.path, "");
    assert_eq!(missing.build_variant, "custom");
    assert!(!missing.full_build);
    assert!(!missing.update_available);
}
