use dlcore::engine::{
    cadence_due, compute_speed, make_download_id, make_range_header, range_status_ok,
    status_is_success, use_single_stream, Terminal, Transfer,
};
use dlcore::errors::DownloadError;
use dlcore::plan::{clamp_workers, plan_segments, plan_tail_segments};
use dlcore::resume::{resume_download, ResumeAction};
use dlcore::state::{AppState, DownloadMeta};

fn fresh_transfer(total: Option<u64>) -> Transfer {
    let (t, started) = Transfer::new(
        "dl-1".to_string(),
        "http://h/f.bin".to_string(),
        "f.bin".to_string(),
        "/tmp".to_string(),
        "/tmp/f.part".to_string(),
        "/tmp/f.bin".to_string(),
        total,
    );
    assert_eq!(started.id, "dl-1");
    assert_eq!(started.url, "http://h/f.bin");
    assert_eq!(started.file_name, "f.bin");
    assert_eq!(started.dest_dir, "/tmp");
    assert_eq!(started.total, total);
    t
}

#[test]
fn worker_clamp() {
    assert_eq!(clamp_workers(0), 1);
    assert_eq!(clamp_workers(1), 1);
    assert_eq!(clamp_workers(4), 4);
    assert_eq!(clamp_workers(32), 32);
    assert_eq!(clamp_workers(33), 32);
    assert_eq!(clamp_workers(255), 32);
}

#[test]
fn segment_plan_mebibyte_four_workers() {
    let segs = plan_segments(1_048_576, 4);
    let got: Vec<(u64, u64)> = segs.iter().map(|s| (s.start, s.end)).collect();
    assert_eq!(
        got,
        vec![(0, 262143), (262144, 524287), (524288, 786431), (786432, 1048575)]
    );
}

#[test]
fn segment_plan_uneven() {
    let segs = plan_segments(10, 4);
    let got: Vec<(u64, u64)> = segs.iter().map(|s| (s.start, s.end)).collect();
    assert_eq!(got, vec![(0, 2), (3, 5), (6, 8), (9, 9)]);
}

#[test]
fn segment_plan_more_workers_than_bytes() {
    let segs = plan_segments(3, 32);
    let got: Vec<(u64, u64)> = segs.iter().map(|s| (s.start, s.end)).collect();
    assert_eq!(got, vec![(0, 0), (1, 1), (2, 2)]);
}

#[test]
fn segment_plan_single() {
    let segs = plan_segments(1, 1);
    let got: Vec<(u64, u64)> = segs.iter().map(|s| (s.start, s.end)).collect();
    assert_eq!(got, vec![(0, 0)]);
}

#[test]
fn resume_plan_from_half() {
    let segs = plan_tail_segments(500_000, 1_000_000, 2);
    let got: Vec<(u64, u64)> = segs.iter().map(|s| (s.start, s.end)).collect();
    assert_eq!(got, vec![(500_000, 749_999), (750_000, 999_999)]);
}

#[test]
fn stream_mode_decision() {
    assert!(use_single_stream(None, true, 8));
    assert!(use_single_stream(Some(10), false, 8));
    assert!(use_single_stream(Some(10), true, 1));
    assert!(!use_single_stream(Some(10), true, 4));
}

#[test]
fn id_and_range_header() {
    assert_eq!(make_download_id(42), "dl-42");
    assert_eq!(make_range_header(0, 262143), "bytes=0-262143");
    assert_eq!(make_range_header(750_000, 999_999), "bytes=750000-999999");
}

#[test]
fn status_checks() {
    assert!(status_is_success(200));
    assert!(status_is_success(204));
    assert!(!status_is_success(301));
    assert!(!status_is_success(404));
    assert!(range_status_ok(206));
    assert!(range_status_ok(200));
    assert!(!range_status_ok(416));
}

#[test]
fn speed_and_cadence() {
    assert_eq!(compute_speed(1000, 1000), 1000);
    assert_eq!(compute_speed(500, 0), 500_000);
    assert_eq!(compute_speed(0, 250), 0);
    assert_eq!(compute_speed(u64::MAX, 1), u64::MAX);
    assert!(cadence_due(900, 400, 500));
    assert!(!cadence_due(899, 400, 500));
}

#[test]
fn error_messages() {
    assert_eq!(DownloadError::NotFound.message(), "not found");
    assert_eq!(DownloadError::UnknownId.message(), "unknown download id");
    assert_eq!(
        DownloadError::NoRangeSupport.message(),
        "server does not support range resuming"
    );
    assert_eq!(
        DownloadError::UnknownTotal.message(),
        "unknown total size; cannot resume"
    );
    assert_eq!(DownloadError::EmptyContent.message(), "empty content (total size is 0)");
    assert_eq!(DownloadError::NoData.message(), "no data received");
    assert_eq!(DownloadError::Canceled.message(), "canceled");
    assert_eq!(
        DownloadError::Incomplete { got: 300_000, total: 1_000_000 }.message(),
        "incomplete: 300000 < 1000000"
    );
    assert_eq!(
        DownloadError::Worker { message: "Range GET error: refused".to_string() }.message(),
        "Range GET error: refused"
    );
}

#[test]
fn segmented_run_completes() {
    let mut t = fresh_transfer(Some(1_048_576));
    t.prepare_segmented(0);
    for _ in 0..4 {
        t.record_chunk(262_144);
    }
    let p = t.tick(1000);
    assert_eq!(p.id, "dl-1");
    assert_eq!(p.received, 1_048_576);
    assert_eq!(p.total, 1_048_576);
    assert_eq!(p.speed, 1_048_576);
    match t.finish() {
        Terminal::Completed { payload } => {
            assert_eq!(payload.id, "dl-1");
            assert_eq!(payload.path, "/tmp/f.bin");
        },
        _ => panic!("expected completion"),
    }
}

#[test]
fn single_stream_completes_with_unknown_total() {
    let mut t = fresh_transfer(None);
    t.prepare_single();
    t.record_chunk(700);
    let p = t.tick(350);
    assert_eq!(p.received, 700);
    assert_eq!(p.total, 0);
    assert_eq!(p.speed, 2000);
    t.record_chunk(300);
    match t.finish() {
        Terminal::Completed { payload } => {
            assert_eq!(payload.path, "/tmp/f.bin");
        },
        _ => panic!("expected completion"),
    }
}

#[test]
fn cancel_wins_over_everything() {
    let mut t = fresh_transfer(Some(10_485_760));
    t.prepare_segmented(0);
    t.record_chunk(1000);
    t.observe_cancel(false);
    t.observe_cancel(true);
    t.report_error("Read stream error: reset".to_string());
    match t.finish() {
        Terminal::Canceled { payload } => {
            assert_eq!(payload.id, "dl-1");
        },
        _ => panic!("expected cancellation"),
    }
}

#[test]
fn first_worker_error_wins() {
    let mut t = fresh_transfer(Some(1000));
    t.prepare_segmented(0);
    t.report_error("Unexpected status: 503".to_string());
    t.report_error("Write error: full".to_string());
    match t.finish() {
        Terminal::Failed { payload, remove_temp } => {
            assert_eq!(payload.error, "Unexpected status: 503");
            assert!(!remove_temp);
        },
        _ => panic!("expected failure"),
    }
}

#[test]
fn incomplete_transfer_detected() {
    let mut t = fresh_transfer(Some(1_000_000));
    t.prepare_segmented(0);
    t.record_chunk(300_000);
    match t.finish() {
        Terminal::Failed { payload, remove_temp } => {
            assert_eq!(payload.error, "incomplete: 300000 < 1000000");
            assert!(!remove_temp);
        },
        _ => panic!("expected failure"),
    }
}

#[test]
fn single_stream_without_data_fails() {
    let mut t = fresh_transfer(Some(5));
    t.prepare_single();
    match t.finish() {
        Terminal::Failed { payload, remove_temp } => {
            assert_eq!(payload.error, "no data received");
            assert!(remove_temp);
        },
        _ => panic!("expected failure"),
    }
}

#[test]
fn empty_content_fails_and_drops_temp() {
    let mut t = fresh_transfer(Some(0));
    match t.fail_now(DownloadError::EmptyContent) {
        Terminal::Failed { payload, remove_temp } => {
            assert_eq!(payload.error, "empty content (total size is 0)");
            assert!(remove_temp);
        },
        _ => panic!("expected failure"),
    }
}

#[test]
fn bad_status_fails_and_keeps_temp() {
    let mut t = fresh_transfer(Some(10));
    let msg = "Unexpected status: 503".to_string();
    match t.fail_now(DownloadError::Worker { message: msg }) {
        Terminal::Failed { payload, remove_temp } => {
            assert_eq!(payload.error, "Unexpected status: 503");
            assert!(!remove_temp);
        },
        _ => panic!("expected failure"),
    }
}

#[test]
fn progress_is_monotone_across_ticks() {
    let mut t = fresh_transfer(Some(1000));
    t.prepare_segmented(0);
    t.record_chunk(100);
    let p1 = t.tick(500);
    t.record_chunk(200);
    let p2 = t.tick(1000);
    let p3 = t.tick(1500);
    assert!(p1.received <= p2.received);
    assert!(p2.received <= p3.received);
    assert_eq!(p3.received, 300);
    assert!(p3.total == 1000 && p3.received <= p3.total);
    assert_eq!(p3.speed, 0);
}

#[test]
fn registry_round_trip() {
    let mut state = AppState::default();
    let id = "dl-7".to_string();
    assert!(state.get_meta(&id).is_none());
    state.insert_meta(
        id.clone(),
        DownloadMeta {
            url: "http://h/a.bin".to_string(),
            dest: "/tmp/a.bin".to_string(),
            temp: "/tmp/a.part".to_string(),
            total: Some(9),
            accept_ranges: true,
        },
    );
    state.insert_cancel(id.clone());
    let m = state.get_meta(&id).expect("registered");
    assert_eq!(m.url, "http://h/a.bin");
    assert_eq!(m.total, Some(9));
    assert_eq!(state.get_cancel(&id), Some(false));
    assert!(state.cancel_download(&id).is_ok());
    assert_eq!(state.get_cancel(&id), Some(true));
}

#[test]
fn cancel_unknown_id_is_not_found() {
    let mut state = AppState::default();
    let id = "nope".to_string();
    let e = state.cancel_download(&id).unwrap_err();
    assert_eq!(e.message(), "not found");
}

#[test]
fn deletion_clears_both_registries() {
    let mut state = AppState::default();
    let id = "dl-9".to_string();
    state.insert_meta(
        id.clone(),
        DownloadMeta {
            url: "u".to_string(),
            dest: "/d/x.bin".to_string(),
            temp: "/d/x.part".to_string(),
            total: None,
            accept_ranges: false,
        },
    );
    state.insert_cancel(id.clone());
    let paths = state.delete_download(&id).expect("paths of a registered download");
    assert_eq!(paths.0, "/d/x.part");
    assert_eq!(paths.1, "/d/x.bin");
    assert!(state.get_meta(&id).is_none());
    assert!(state.get_cancel(&id).is_none());
    assert!(state.delete_download(&id).is_none());
}

fn resumable_state(id: &str, total: Option<u64>, accept_ranges: bool) -> AppState {
    let mut state = AppState::default();
    state.insert_meta(
        id.to_string(),
        DownloadMeta {
            url: "http://h/big.bin".to_string(),
            dest: "/d/big.bin".to_string(),
            temp: "/d/big.part".to_string(),
            total,
            accept_ranges,
        },
    );
    state
}

#[test]
fn resume_unknown_id() {
    let mut state = AppState::default();
    let id = "missing".to_string();
    let e = resume_download(&mut state, &id, 4, 0).unwrap_err();
    assert_eq!(e.message(), "unknown download id");
}

#[test]
fn resume_needs_range_support() {
    let id = "dl-3".to_string();
    let mut state = resumable_state(&id, Some(100), false);
    let e = resume_download(&mut state, &id, 4, 0).unwrap_err();
    assert_eq!(e.message(), "server does not support range resuming");
}

#[test]
fn resume_needs_known_total() {
    let id = "dl-4".to_string();
    let mut state = resumable_state(&id, None, true);
    let e = resume_download(&mut state, &id, 4, 0).unwrap_err();
    assert_eq!(e.message(), "unknown total size; cannot resume");
}

#[test]
fn resume_promotes_a_complete_part_file() {
    let id = "dl-5".to_string();
    let mut state = resumable_state(&id, Some(100), true);
    match resume_download(&mut state, &id, 4, 100).expect("promotion") {
        ResumeAction::Promote { temp, dest } => {
            assert_eq!(temp, "/d/big.part");
            assert_eq!(dest, "/d/big.bin");
        },
        _ => panic!("expected promotion without any request"),
    }
    assert!(state.get_meta(&id).is_none());
    assert!(state.get_cancel(&id).is_none());
}

#[test]
fn resume_tiles_the_tail() {
    let id = "dl-6".to_string();
    let mut state = resumable_state(&id, Some(1_000_000), true);
    match resume_download(&mut state, &id, 2, 500_000).expect("tail run") {
        ResumeAction::Run { meta, cur, segments } => {
            assert_eq!(meta.url, "http://h/big.bin");
            assert_eq!(cur, 500_000);
            let got: Vec<(u64, u64)> = segments.iter().map(|s| (s.start, s.end)).collect();
            assert_eq!(got, vec![(500_000, 749_999), (750_000, 999_999)]);
        },
        _ => panic!("expected a tail run"),
    }
    assert_eq!(state.get_cancel(&id), Some(false));
    assert!(state.get_meta(&id).is_some());
}

#[test]
fn resume_run_after_cancel_and_finish() {
    // A resumed run that is then canceled keeps the part file.
    let mut t = fresh_transfer(Some(1_000_000));
    t.prepare_segmented(500_000);
    t.record_chunk(100_000);
    t.observe_cancel(true);
    match t.finish() {
        Terminal::Canceled { payload } => assert_eq!(payload.id, "dl-1"),
        _ => panic!("expected cancellation"),
    }
}

#[test]
fn resumed_run_completes_at_total() {
    let mut t = fresh_transfer(Some(1_000_000));
    t.prepare_segmented(500_000);
    t.record_chunk(250_000);
    t.record_chunk(250_000);
    let p = t.tick(2000);
    assert_eq!(p.received, 1_000_000);
    match t.finish() {
        Terminal::Completed { payload } => assert_eq!(payload.path, "/tmp/f.bin"),
        _ => panic!("expected completion"),
    }
}
