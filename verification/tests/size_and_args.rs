use effigy_video_compressor::args::{add_two_pass_args, apply_video_bitrate, set_ffmpeg_arg};
use effigy_video_compressor::budget::corrected_video_bitrate;

fn strings(items: &[&str]) -> Vec<String> {
    items.iter().map(|s| s.to_string()).collect()
}

#[test]
fn size_correction_scales_down_large_overshoots() {
    let corrected = corrected_video_bitrate(10_000, 100 * 1024 * 1024, 144 * 1024 * 1024);
    assert_eq!(corrected, 6_805);
}

#[test]
fn ffmpeg_argument_updates_change_only_the_requested_value() {
    let mut args = vec![
        "-b:v".to_string(),
        "10000k".to_string(),
        "-maxrate".to_string(),
        "10000k".to_string(),
    ];
    assert!(set_ffmpeg_arg(&mut args, "-b:v", "6805k".to_string()));
    assert_eq!(args[1], "6805k");
    assert_eq!(args[3], "10000k");
}

#[test]
fn correction_keeps_bitrate_without_a_measured_size() {
    assert_eq!(corrected_video_bitrate(4_000, 100, 0), 4_000);
    assert_eq!(corrected_video_bitrate(-5, 100, 0), 1);
}

#[test]
fn correction_never_goes_below_one() {
    assert_eq!(corrected_video_bitrate(10, 1, 1_000_000), 1);
    assert_eq!(corrected_video_bitrate(0, 100, 200), 1);
    assert_eq!(corrected_video_bitrate(-30, 100, 200), 1);
}

#[test]
fn correction_of_an_exact_fit_still_leaves_two_percent_headroom() {
    assert_eq!(corrected_video_bitrate(1_000, 500, 500), 980);
}

#[test]
fn correction_saturates_at_the_largest_bitrate() {
    assert_eq!(corrected_video_bitrate(i64::MAX, u64::MAX, 1), i64::MAX);
}

#[test]
fn correction_of_an_undershoot_raises_the_bitrate() {
    assert_eq!(corrected_video_bitrate(1_000, 200, 100), 1_960);
}

#[test]
fn set_ffmpeg_arg_reports_a_missing_flag() {
    let mut args = strings(&["-c:v", "libx264"]);
    assert!(!set_ffmpeg_arg(&mut args, "-b:v", "1k".to_string()));
    assert_eq!(args, strings(&["-c:v", "libx264"]));
}

#[test]
fn set_ffmpeg_arg_reports_a_flag_without_value() {
    let mut args = strings(&["-c:v", "libx264", "-b:v"]);
    assert!(!set_ffmpeg_arg(&mut args, "-b:v", "1k".to_string()));
    assert_eq!(args, strings(&["-c:v", "libx264", "-b:v"]));
}

#[test]
fn set_ffmpeg_arg_changes_the_first_occurrence_only() {
    let mut args = strings(&["-b:v", "1k", "-b:v", "2k"]);
    assert!(set_ffmpeg_arg(&mut args, "-b:v", "3k".to_string()));
    assert_eq!(args, strings(&["-b:v", "3k", "-b:v", "2k"]));
}

#[test]
fn corrected_bitrate_updates_average_peak_and_buffer() {
    let mut args = strings(&["-b:v", "10000k", "-maxrate", "20000k", "-bufsize", "20000k", "-y", "out.mp4"]);
    apply_video_bitrate(&mut args, 6_805);
    assert_eq!(
        args,
        strings(&["-b:v", "6805k", "-maxrate", "13610k", "-bufsize", "13610k", "-y", "out.mp4"])
    );
}

#[test]
fn two_pass_args_for_x264_name_pass_and_log() {
    let mut args = strings(&["-c:v", "libx264"]);
    add_two_pass_args(&mut args, "libx264", 1, "/tmp/effigy-pass-1", false);
    assert_eq!(
        args,
        strings(&["-c:v", "libx264", "-pass", "1", "-passlogfile", "/tmp/effigy-pass-1"])
    );
}

#[test]
fn two_pass_args_for_x265_go_into_its_parameters() {
    let mut args = strings(&["-x265-params", "aq-mode=3", "-y"]);
    add_two_pass_args(&mut args, "libx265", 2, "C:\\Temp\\effigy-pass", true);
    assert_eq!(
        args,
        strings(&["-x265-params", "aq-mode=3:pass=2:stats=C\\:/Temp/effigy-pass", "-y"])
    );
}

#[test]
fn two_pass_args_for_x265_elsewhere_keep_the_drive_colon() {
    let mut args = strings(&["-x265-params", "aq-mode=3"]);
    add_two_pass_args(&mut args, "libx265", 1, "C:\\Temp\\p", false);
    assert_eq!(args, strings(&["-x265-params", "aq-mode=3:pass=1:stats=C:/Temp/p"]));
}

#[test]
fn two_pass_args_for_x265_without_parameters_change_nothing() {
    let mut args = strings(&["-c:v", "libx265"]);
    add_two_pass_args(&mut args, "libx265", 1, "/tmp/p", false);
    assert_eq!(args, strings(&["-c:v", "libx265"]));
}
