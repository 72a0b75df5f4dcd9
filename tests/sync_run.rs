use openspace_sync::camera_finder::CameraInfo;
use openspace_sync::model::GetOrCreateUploadResponse;
use openspace_sync::storage::SkipCache;
use openspace_sync::sync::{CandidateFile, Step, SyncAction, SyncRun, UploadEvent};

fn camera(dev: &str) -> Option<CameraInfo> {
    Some(CameraInfo { mount_point: "/Volumes/CAM".to_string(), device_id: dev.to_string() })
}

fn file(name: &str, size: i64) -> CandidateFile {
    CandidateFile::new(format!("/Volumes/CAM/DCIM/{}", name), name.to_string(), size)
}

fn upload_id(id: &str) -> Result<GetOrCreateUploadResponse, String> {
    Ok(GetOrCreateUploadResponse { upload_id: Some(id.to_string()) })
}

fn already_there() -> Result<GetOrCreateUploadResponse, String> {
    Ok(GetOrCreateUploadResponse { upload_id: None })
}

fn names(step: &Step) -> Vec<String> {
    step.events.iter().map(|e| format!("{:?}", e)).collect()
}

fn started(run: &mut SyncRun, dev: &str, files: Vec<CandidateFile>) -> Vec<UploadEvent> {
    assert!(matches!(run.action(), SyncAction::LocateVolume));
    let mut events = run.on_located(camera(dev)).events;
    match run.action() {
        SyncAction::ListFiles { root } => assert_eq!(root, "/Volumes/CAM"),
        other => panic!("unexpected {:?}", other),
    }
    events.extend(run.on_listed(files).events);
    events
}

#[test]
fn no_camera_ends_the_run_without_events() {
    let mut run = SyncRun::new(SkipCache::new(), 1);
    assert!(matches!(run.action(), SyncAction::LocateVolume));
    let step = run.on_located(None);
    assert!(step.events.is_empty());
    assert!(step.record.is_none());
    assert!(run.is_done());
    assert!(matches!(run.action(), SyncAction::Finish));
}

#[test]
fn no_files_ends_after_camera_found() {
    let mut run = SyncRun::new(SkipCache::new(), 1);
    let events = started(&mut run, "cam-1", vec![file("notes.txt", 3)]);
    assert_eq!(events.len(), 1);
    assert!(matches!(&events[0], UploadEvent::CameraFound(d) if d == "cam-1"));
    assert!(run.is_done());
}

#[test]
fn negotiation_request_describes_the_file() {
    let mut run = SyncRun::new(SkipCache::new(), 3);
    let events = started(&mut run, "cam-1", vec![file("a.insv", 20_000_000)]);
    assert!(matches!(&events[1], UploadEvent::FileStarted { filename, total_bytes: 20_000_000 } if filename == "a.insv"));
    match run.action() {
        SyncAction::Negotiate { request } => {
            assert_eq!(request.device_id, "cam-1");
            assert_eq!(request.device_filename, "a.insv");
            assert_eq!(request.content_type, "video/insv");
            assert_eq!(request.size, 20_000_000);
            assert_eq!(request.num_parts, 3);
        }
        other => panic!("unexpected {:?}", other),
    }
}

#[test]
fn empty_file_sends_one_empty_chunk_and_completes() {
    let mut run = SyncRun::new(SkipCache::new(), 1);
    started(&mut run, "cam-1", vec![file("empty.insv", 0)]);
    let step = run.on_negotiated(200, "200 OK".to_string(), upload_id("u-1"));
    assert!(step.events.is_empty());
    match run.action() {
        SyncAction::UploadChunk { path, upload_id, part, range, content_range } => {
            assert_eq!(path, "/Volumes/CAM/DCIM/empty.insv");
            assert_eq!(upload_id, "u-1");
            assert_eq!(part, 0);
            assert_eq!((range.start, range.end), (0, 0));
            assert_eq!(content_range, "bytes 0--1/0");
        }
        other => panic!("unexpected {:?}", other),
    }
    let step = run.on_chunk_sent(200, "200 OK".to_string());
    assert_eq!(
        names(&step),
        vec![
            "FileProgress { filename: \"empty.insv\", bytes_uploaded: 0, total_bytes: 0 }".to_string(),
            "FileCompleted { filename: \"empty.insv\" }".to_string(),
        ]
    );
    assert!(run.is_done());
}

#[test]
fn three_chunks_report_cumulative_progress() {
    let mut run = SyncRun::new(SkipCache::new(), 3);
    started(&mut run, "cam-1", vec![file("big.insv", 20_000_000)]);
    run.on_negotiated(201, "201 Created".to_string(), upload_id("u-9"));
    let mut ranges = Vec::new();
    let mut progress = Vec::new();
    let mut completed = 0;
    while let SyncAction::UploadChunk { range, content_range, part, .. } = run.action() {
        assert_eq!(part, ranges.len());
        ranges.push((range.start, range.end, content_range));
        for e in run.on_chunk_sent(204, "204 No Content".to_string()).events {
            match e {
                UploadEvent::FileProgress { bytes_uploaded, total_bytes, .. } => {
                    assert_eq!(total_bytes, 20_000_000);
                    progress.push(bytes_uploaded);
                }
                UploadEvent::FileCompleted { .. } => completed += 1,
                other => panic!("unexpected {:?}", other),
            }
        }
    }
    assert_eq!(
        ranges,
        vec![
            (0, 6_666_667, "bytes 0-6666666/20000000".to_string()),
            (6_666_667, 13_333_334, "bytes 6666667-13333333/20000000".to_string()),
            (13_333_334, 20_000_000, "bytes 13333334-19999999/20000000".to_string()),
        ]
    );
    assert_eq!(progress, vec![6_666_667, 13_333_334, 20_000_000]);
    assert_eq!(completed, 1);
    assert!(run.is_done());
}

#[test]
fn missing_upload_id_records_skip_without_chunks() {
    let mut run = SyncRun::new(SkipCache::new(), 1);
    started(&mut run, "cam-1", vec![file("a.insv", 42), file("b.insv", 7)]);
    let step = run.on_negotiated(200, "200 OK".to_string(), already_there());
    assert_eq!(
        names(&step),
        vec![
            "FileSkipped { filename: \"a.insv\" }".to_string(),
            "FileStarted { filename: \"b.insv\", total_bytes: 7 }".to_string(),
        ]
    );
    let record = step.record.expect("a record to persist");
    assert_eq!((record.filename.as_str(), record.size, record.device_id.as_str()), ("a.insv", 42, "cam-1"));
    assert!(run.cache().contains("a.insv", 42, "cam-1"));
    match run.action() {
        SyncAction::Negotiate { request } => assert_eq!(request.device_filename, "b.insv"),
        other => panic!("unexpected {:?}", other),
    }
}

#[test]
fn failed_second_chunk_stops_the_file_and_the_run_goes_on() {
    let mut run = SyncRun::new(SkipCache::new(), 3);
    started(&mut run, "cam-1", vec![file("a.insv", 30), file("b.insv", 5)]);
    run.on_negotiated(200, "200 OK".to_string(), upload_id("u-a"));
    let first = run.on_chunk_sent(200, "200 OK".to_string());
    assert_eq!(names(&first), vec!["FileProgress { filename: \"a.insv\", bytes_uploaded: 10, total_bytes: 30 }".to_string()]);
    match run.action() {
        SyncAction::UploadChunk { part, .. } => assert_eq!(part, 1),
        other => panic!("unexpected {:?}", other),
    }
    let second = run.on_chunk_sent(500, "500 Internal Server Error".to_string());
    assert_eq!(
        names(&second),
        vec![
            "FileFailed { filename: \"a.insv\", error: \"Failed to upload chunk 1: 500 Internal Server Error\" }".to_string(),
            "FileStarted { filename: \"b.insv\", total_bytes: 5 }".to_string(),
        ]
    );
    match run.action() {
        SyncAction::Negotiate { request } => assert_eq!(request.device_filename, "b.insv"),
        other => panic!("unexpected {:?}", other),
    }
    run.on_negotiated(200, "200 OK".to_string(), upload_id("u-b"));
    let mut completed = false;
    while let SyncAction::UploadChunk { .. } = run.action() {
        for e in run.on_chunk_sent(200, "200 OK".to_string()).events {
            if let UploadEvent::FileCompleted { filename } = e {
                assert_eq!(filename, "b.insv");
                completed = true;
            }
        }
    }
    assert!(completed);
    assert!(run.is_done());
}

#[test]
fn negotiation_failures_fail_only_that_file() {
    let mut run = SyncRun::new(SkipCache::new(), 1);
    started(&mut run, "cam-1", vec![file("a.insv", 1), file("b.insv", 2), file("c.insv", 3)]);
    let s1 = run.on_negotiated(503, "503 Service Unavailable".to_string(), Err("ignored".to_string()));
    assert_eq!(names(&s1)[0], "FileFailed { filename: \"a.insv\", error: \"Failed to create upload: 503 Service Unavailable\" }");
    let s2 = run.on_negotiated(200, "200 OK".to_string(), Err("error decoding response body".to_string()));
    assert_eq!(names(&s2)[0], "FileFailed { filename: \"b.insv\", error: \"error decoding response body\" }");
    let s3 = run.on_failure("connection refused".to_string());
    assert_eq!(names(&s3), vec!["FileFailed { filename: \"c.insv\", error: \"connection refused\" }".to_string()]);
    assert!(run.is_done());
}

#[test]
fn every_file_gets_exactly_one_terminal_event() {
    let mut cache = SkipCache::new();
    cache.insert(openspace_sync::storage::SkippedFile::new("cached.insv".to_string(), 5, "cam-1".to_string()));
    let mut run = SyncRun::new(cache, 2);
    let mut events = started(
        &mut run,
        "cam-1",
        vec![file("ok.insv", 9), file("cached.insv", 5), file("there.insv", 4), file("bad.insv", 8), file("x.jpg", 1)],
    );
    let mut answers = vec![upload_id("u-ok"), already_there(), upload_id("u-bad")].into_iter();
    let mut chunk = 0;
    loop {
        let step = match run.action() {
            SyncAction::Negotiate { .. } => run.on_negotiated(200, "200 OK".to_string(), answers.next().unwrap()),
            SyncAction::UploadChunk { upload_id, .. } => {
                chunk += 1;
                if upload_id == "u-bad" {
                    run.on_chunk_sent(500, "500 Internal Server Error".to_string())
                } else {
                    run.on_chunk_sent(200, "200 OK".to_string())
                }
            }
            SyncAction::Finish => break,
            other => panic!("unexpected {:?}", other),
        };
        events.extend(step.events);
    }
    assert_eq!(chunk, 3);
    let mut terminals = std::collections::HashMap::new();
    let mut last_progress = std::collections::HashMap::new();
    for e in &events {
        match e {
            UploadEvent::FileProgress { filename, bytes_uploaded, .. } => {
                assert!(!terminals.contains_key(filename));
                let prev = last_progress.insert(filename.clone(), *bytes_uploaded).unwrap_or(0);
                assert!(prev <= *bytes_uploaded);
            }
            UploadEvent::FileSkipped { filename }
            | UploadEvent::FileCompleted { filename }
            | UploadEvent::FileFailed { filename, .. } => {
                *terminals.entry(filename.clone()).or_insert(0) += 1;
            }
            _ => {}
        }
    }
    assert_eq!(terminals.len(), 4);
    assert!(terminals.values().all(|n| *n == 1));
    assert!(matches!(&events[0], UploadEvent::CameraFound(_)));
    assert!(matches!(&events[1], UploadEvent::FileSkipped { filename } if filename == "cached.insv"));
}

#[test]
fn skipped_file_is_skipped_again_from_the_cache() {
    let mut first = SyncRun::new(SkipCache::new(), 1);
    started(&mut first, "cam-1", vec![file("a.insv", 42)]);
    let step = first.on_negotiated(200, "200 OK".to_string(), already_there());
    assert!(step.record.is_some());
    assert!(first.is_done());
    let records = first.cache().records();
    let persisted: Vec<_> = records.iter().map(|r| r.duplicate()).collect();

    let mut second = SyncRun::new(SkipCache::from_records(persisted), 1);
    let events = started(&mut second, "cam-1", vec![file("a.insv", 42)]);
    assert_eq!(events.len(), 2);
    assert!(matches!(&events[1], UploadEvent::FileSkipped { filename } if filename == "a.insv"));
    assert!(second.is_done());
    assert!(matches!(second.action(), SyncAction::Finish));
}

#[test]
fn replies_out_of_turn_change_nothing() {
    let mut run = SyncRun::new(SkipCache::new(), 1);
    assert!(run.on_chunk_sent(200, "200 OK".to_string()).events.is_empty());
    assert!(run.on_negotiated(200, "200 OK".to_string(), already_there()).events.is_empty());
    assert!(run.on_listed(vec![file("a.insv", 1)]).events.is_empty());
    assert!(run.on_failure("x".to_string()).events.is_empty());
    assert!(matches!(run.action(), SyncAction::LocateVolume));
}
