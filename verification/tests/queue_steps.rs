use effigy_video_compressor::base64::base64_encode;
use effigy_video_compressor::hardware::{
    encoder_candidates, next_probe_test, probe_record_result, probe_test_args, record_probe_test, ProbeRecord,
    ProbeTest,
};
use effigy_video_compressor::queue::{
    file_start, next_file_step, start_queue, EncodeStage, FileOutcome, FileStep, QueueReport, RunResult,
};

fn ok_run() -> RunResult {
    RunResult::Exited { success: true, code: Some(0) }
}

#[test]
fn queue_start_errors_come_in_order() {
    assert_eq!(
        start_queue(false, false, true, "avi", "libx264"),
        Err("FFmpeg not found — please install it first.".to_string())
    );
    assert_eq!(
        start_queue(true, false, true, "avi", "libx264"),
        Err("FFprobe not found — please install it first.".to_string())
    );
    assert_eq!(
        start_queue(true, true, true, "avi", "libx264"),
        Err("A compression queue is already running".to_string())
    );
    assert_eq!(start_queue(true, true, false, "avi", "libx264"), Err("Unsupported output container".to_string()));
    assert_eq!(
        start_queue(true, true, false, "webm", "libx264"),
        Err("WebM is available for AV1 encoders; choose MP4 for H.264 or H.265".to_string())
    );
    assert_eq!(start_queue(true, true, false, "webm", "av1_nvenc"), Ok(()));
    assert_eq!(start_queue(true, true, false, "mp4", "libx264"), Ok(()));
}

#[test]
fn a_folder_error_comes_before_a_cancellation() {
    match file_start(Some("denied".to_string()), true) {
        Some(FileOutcome::Failed(m)) => assert_eq!(m, "Unable to create output folder: denied"),
        _ => panic!("expected a failure"),
    }
    assert!(matches!(file_start(None, true), Some(FileOutcome::Cancelled)));
    assert!(file_start(None, false).is_none());
}

#[test]
fn analysis_pass_leads_to_the_output_pass() {
    assert!(matches!(
        next_file_step(EncodeStage::Analysis, ok_run(), false, true, 1000, 8_000_000, 0),
        FileStep::RunOutput
    ));
    assert!(matches!(
        next_file_step(EncodeStage::Analysis, ok_run(), true, true, 1000, 8_000_000, 0),
        FileStep::Finish(FileOutcome::Cancelled)
    ));
    match next_file_step(
        EncodeStage::Analysis,
        RunResult::Exited { success: false, code: Some(3) },
        false,
        true,
        1000,
        8_000_000,
        0,
    ) {
        FileStep::Finish(FileOutcome::Failed(m)) => assert_eq!(m, "FFmpeg analysis pass exited with code 3"),
        _ => panic!("expected a failure"),
    }
    match next_file_step(EncodeStage::Analysis, RunResult::LaunchFailed("boom".into()), false, true, 1000, 1, 0) {
        FileStep::Finish(FileOutcome::Failed(m)) => assert_eq!(m, "boom"),
        _ => panic!("expected a failure"),
    }
}

#[test]
fn an_oversized_output_is_corrected_twice_then_fails() {
    // 10 MB produced for an 8 MB limit at 1000 kbps: 1000 * 0.8 * 0.98 = 784.
    match next_file_step(EncodeStage::Output, ok_run(), false, true, 1000, 8_000_000, 10_000_000) {
        FileStep::Retry { attempt, bitrate } => assert_eq!((attempt, bitrate), (1, 784)),
        _ => panic!("expected a retry"),
    }
    match next_file_step(EncodeStage::Correction(1), ok_run(), false, true, 784, 8_000_000, 8_100_000) {
        FileStep::Retry { attempt, bitrate } => assert_eq!((attempt, bitrate), (2, 758)),
        _ => panic!("expected a retry"),
    }
    match next_file_step(EncodeStage::Correction(2), ok_run(), false, true, 758, 8_000_000, 8_000_001) {
        FileStep::Finish(FileOutcome::OverLimit { produced_bytes }) => assert_eq!(produced_bytes, 8_000_001),
        _ => panic!("expected the hard limit to fail the file"),
    }
}

#[test]
fn outputs_within_the_limit_complete() {
    match next_file_step(EncodeStage::Output, ok_run(), false, true, 1000, 8_000_000, 8_000_000) {
        FileStep::Finish(FileOutcome::Completed { output_bytes }) => assert_eq!(output_bytes, 8_000_000),
        _ => panic!("expected completion"),
    }
    // Quality (CRF) encodes have no limit.
    match next_file_step(EncodeStage::Output, ok_run(), false, false, 0, 0, 123) {
        FileStep::Finish(FileOutcome::Completed { output_bytes }) => assert_eq!(output_bytes, 123),
        _ => panic!("expected completion"),
    }
}

#[test]
fn failed_and_cancelled_runs() {
    match next_file_step(
        EncodeStage::Output,
        RunResult::Exited { success: false, code: None },
        false,
        true,
        1000,
        1,
        5,
    ) {
        FileStep::Finish(FileOutcome::Failed(m)) => assert_eq!(m, "FFmpeg exited with code -1"),
        _ => panic!("expected a failure"),
    }
    // A cancelled file is not corrected.
    assert!(matches!(
        next_file_step(EncodeStage::Output, ok_run(), true, true, 1000, 1, 5),
        FileStep::Finish(FileOutcome::Cancelled)
    ));
    // An output encode that could not run reports its error even when cancelled.
    match next_file_step(EncodeStage::Output, RunResult::LaunchFailed("gone".into()), true, true, 1000, 1, 5) {
        FileStep::Finish(FileOutcome::Failed(m)) => assert_eq!(m, "gone"),
        _ => panic!("expected a failure"),
    }
    match next_file_step(EncodeStage::Correction(1), RunResult::LaunchFailed("gone".into()), false, true, 1000, 1, 5) {
        FileStep::Finish(FileOutcome::CorrectionFailed(m)) => assert_eq!(m, "gone"),
        _ => panic!("expected a failed correction"),
    }
    assert!(matches!(
        next_file_step(EncodeStage::Correction(1), RunResult::LaunchFailed("gone".into()), true, true, 1000, 1, 5),
        FileStep::Finish(FileOutcome::Cancelled)
    ));
}

fn run_tests(family: &str, results: &[bool]) -> (Vec<ProbeTest>, ProbeRecord) {
    let mut record = ProbeRecord { base: None, quality: None, fallback: None, tuned: None };
    let mut order = Vec::new();
    let mut answers = results.iter();
    while let Some(test) = next_probe_test(family, record) {
        order.push(test);
        record = record_probe_test(record, test, *answers.next().unwrap());
    }
    (order, record)
}

#[test]
fn hardware_tests_run_in_order() {
    let (order, _) = run_tests("nvenc", &[true, true, true]);
    assert_eq!(order, vec![ProbeTest::Base, ProbeTest::Quality, ProbeTest::Gameplay]);
    let (order, _) = run_tests("nvenc", &[false]);
    assert_eq!(order, vec![ProbeTest::Base]);
    let (order, record) = run_tests("amf", &[true, false, true, true]);
    assert_eq!(order, vec![ProbeTest::Base, ProbeTest::Quality, ProbeTest::AmfFallback, ProbeTest::Gameplay]);
    let cs = encoder_candidates();
    let amf = probe_record_result(&cs[4], &[], record).unwrap();
    assert_eq!(amf.quality_mode, "amf_quality_fallback");
    let (order, record) = run_tests("software", &[true, true]);
    assert_eq!(order, vec![ProbeTest::Base, ProbeTest::Quality]);
    let svt = probe_record_result(&cs[0], &[], record).unwrap();
    assert_eq!(svt.gameplay_mode, "native");
    assert!(probe_test_args(ProbeTest::Base, "amf").is_empty());
    assert_eq!(probe_test_args(ProbeTest::AmfFallback, "amf"), vec!["-rc", "cqp", "-qp_i", "24", "-qp_p", "24"]);
}

#[test]
fn base64_of_whole_groups_concatenates() {
    let a = b"Man";
    let b = b"hello";
    let joined = [&a[..], &b[..]].concat();
    assert_eq!(base64_encode(&joined), base64_encode(a) + &base64_encode(b));
    assert_eq!(base64_encode(&joined), "TWFuaGVsbG8=");
}

#[test]
fn queue_results_come_one_per_file_in_order() {
    let mut report = QueueReport::new();
    report.record("a".into(), FileOutcome::Completed { output_bytes: 42 }, "out/a.mp4".into(), String::new());
    report.record("b".into(), FileOutcome::Cancelled, "out/b.mp4".into(), String::new());
    report.record("c".into(), FileOutcome::OverLimit { produced_bytes: 9 }, "out/c.mp4".into(), "too big".into());
    report.record("d".into(), FileOutcome::CorrectionFailed("gone".into()), "out/d.mp4".into(), String::new());
    assert_eq!(report.len(), 4);
    let rs = report.into_results();
    assert_eq!(rs.iter().map(|r| r.file_index).collect::<Vec<_>>(), vec![0, 1, 2, 3]);
    assert!(rs[0].success && rs[0].output_path == "out/a.mp4" && rs[0].output_size == 42);
    assert!(rs[1].cancelled && !rs[1].success && rs[1].error.is_none() && rs[1].output_path.is_empty());
    assert_eq!(rs[2].error.as_deref(), Some("too big"));
    assert!(!rs[2].success && rs[2].output_path.is_empty() && rs[2].output_size == 0);
    assert_eq!(rs[3].error.as_deref(), Some("gone"));
}
