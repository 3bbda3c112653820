use effigy_video_compressor::base64::{base64_encode, thumbnail_data_url};
use effigy_video_compressor::events::{
    install_progress_from_line, titlebar_close_action, window_close_action, FileResult, TitlebarClose,
    WindowClose,
};
use effigy_video_compressor::zones::{format_zones, merge_zones, zones_argument, Zone};

fn zone(start: u64, end: u64, weight: u64) -> Zone {
    Zone { start, end, weight }
}

#[test]
fn zones_cover_every_output_frame() {
    let zones = [zone(0, 119, 18), zone(120, 239, 22)];
    assert_eq!(zones_argument(&zones), "0,119,b=0.90/120,239,b=1.10");
}

#[test]
fn neighbouring_zones_of_equal_weight_merge() {
    let zones = [zone(0, 59, 20), zone(60, 119, 20), zone(120, 179, 21)];
    let merged = merge_zones(&zones);
    assert_eq!(merged.len(), 2);
    assert_eq!((merged[0].start, merged[0].end, merged[0].weight), (0, 119, 20));
    assert_eq!(format_zones(&merged), "0,119,b=1.00/120,179,b=1.05");
}

#[test]
fn separated_zones_stay_apart() {
    let zones = [zone(0, 10, 20), zone(12, 20, 20)];
    assert_eq!(zones_argument(&zones), "0,10,b=1.00/12,20,b=1.00");
    assert_eq!(zones_argument(&[]), "");
    assert_eq!(zones_argument(&[zone(5, 5, 27)]), "5,5,b=1.35");
}

#[test]
fn base64_matches_the_standard_vectors() {
    assert_eq!(base64_encode(b""), "");
    assert_eq!(base64_encode(b"f"), "Zg==");
    assert_eq!(base64_encode(b"fo"), "Zm8=");
    assert_eq!(base64_encode(b"foo"), "Zm9v");
    assert_eq!(base64_encode(b"foob"), "Zm9vYg==");
    assert_eq!(base64_encode(b"fooba"), "Zm9vYmE=");
    assert_eq!(base64_encode(b"foobar"), "Zm9vYmFy");
    assert_eq!(base64_encode(&[0xff, 0xfe, 0x3e]), "//4+");
}

#[test]
fn thumbnails_become_data_urls() {
    assert_eq!(thumbnail_data_url(&[]), Err("no output".to_string()));
    assert_eq!(thumbnail_data_url(b"foo"), Ok("data:image/png;base64,Zm9v".to_string()));
}

#[test]
fn installer_lines_become_progress_events() {
    let step = install_progress_from_line("STATUS:Downloading FFmpeg Full...").unwrap();
    assert_eq!(step.step, "Downloading FFmpeg Full...");
    assert!(!step.done && step.error.is_none());
    let done = install_progress_from_line("STATUS:Done!").unwrap();
    assert!(done.done);
    let error = install_progress_from_line("ERROR:FFmpeg archive checksum verification failed").unwrap();
    assert_eq!(error.step, "");
    assert!(!error.done);
    assert_eq!(error.error, Some("FFmpeg archive checksum verification failed".to_string()));
    assert!(install_progress_from_line("noise").is_none());
}

#[test]
fn file_results() {
    let c = FileResult::cancelled(3, "clip".to_string());
    assert!(c.cancelled && !c.success && c.error.is_none() && c.output_path.is_empty());
    let f = FileResult::failed(1, "clip".to_string(), "boom".to_string());
    assert!(!f.cancelled && !f.success);
    assert_eq!(f.error, Some("boom".to_string()));
    let ok = FileResult::completed(0, "clip".to_string(), "out.mp4".to_string(), 1234);
    assert!(ok.success && !ok.cancelled);
    assert_eq!((ok.output_path.as_str(), ok.output_size), ("out.mp4", 1234));
}

#[test]
fn closing_during_a_compression_asks_first() {
    assert_eq!(titlebar_close_action(true, true), TitlebarClose::ConfirmDuringCompression);
    assert_eq!(titlebar_close_action(false, true), TitlebarClose::HideToTray);
    assert_eq!(titlebar_close_action(false, false), TitlebarClose::Exit);
    assert_eq!(window_close_action(true, false, false), WindowClose::KeepAndConfirm);
    assert_eq!(window_close_action(true, true, true), WindowClose::Close);
    assert_eq!(window_close_action(false, false, true), WindowClose::KeepAndHide);
    assert_eq!(window_close_action(false, false, false), WindowClose::Close);
}
