use openspace_sync::status::{handle_upload_event, status_class, UploadBoard};
use openspace_sync::sync::UploadEvent;

fn row(board: &UploadBoard, name: &str) -> (i64, i64, String) {
    let r = board.uploads().iter().find(|u| u.filename == name).expect("a row");
    (r.bytes_uploaded, r.total_bytes, r.status.clone())
}

#[test]
fn board_follows_a_file_through_its_upload() {
    let mut board = UploadBoard::new("No camera connected".to_string());
    handle_upload_event(UploadEvent::CameraFound("cam-1".to_string()), &mut board);
    assert_eq!(board.device_id(), "cam-1");
    handle_upload_event(UploadEvent::FileStarted { filename: "a.insv".to_string(), total_bytes: 10 }, &mut board);
    assert_eq!(row(&board, "a.insv"), (0, 10, "uploading".to_string()));
    handle_upload_event(
        UploadEvent::FileProgress { filename: "a.insv".to_string(), bytes_uploaded: 4, total_bytes: 10 },
        &mut board,
    );
    assert_eq!(row(&board, "a.insv"), (4, 10, "uploading".to_string()));
    handle_upload_event(UploadEvent::FileCompleted { filename: "a.insv".to_string() }, &mut board);
    assert_eq!(row(&board, "a.insv"), (4, 10, "completed".to_string()));
    assert_eq!(board.uploads().len(), 1);
}

#[test]
fn board_counts_skips_and_marks_failures() {
    let mut board = UploadBoard::new(String::new());
    handle_upload_event(UploadEvent::FileSkipped { filename: "cached.insv".to_string() }, &mut board);
    assert_eq!(board.skipped_count(), 1);
    assert_eq!(board.uploads().len(), 0);
    handle_upload_event(UploadEvent::FileStarted { filename: "b.insv".to_string(), total_bytes: 3 }, &mut board);
    handle_upload_event(UploadEvent::FileSkipped { filename: "b.insv".to_string() }, &mut board);
    assert_eq!(row(&board, "b.insv").2, "skipped");
    assert_eq!(board.skipped_count(), 2);
    handle_upload_event(UploadEvent::FileStarted { filename: "c.insv".to_string(), total_bytes: 3 }, &mut board);
    handle_upload_event(
        UploadEvent::FileFailed { filename: "c.insv".to_string(), error: "Failed to upload chunk 0: 500".to_string() },
        &mut board,
    );
    assert_eq!(row(&board, "c.insv").2, "failed: Failed to upload chunk 0: 500");
}

#[test]
fn restarted_file_gets_a_fresh_row() {
    let mut board = UploadBoard::new(String::new());
    handle_upload_event(UploadEvent::FileStarted { filename: "a.insv".to_string(), total_bytes: 10 }, &mut board);
    handle_upload_event(
        UploadEvent::FileProgress { filename: "a.insv".to_string(), bytes_uploaded: 10, total_bytes: 10 },
        &mut board,
    );
    handle_upload_event(UploadEvent::FileStarted { filename: "a.insv".to_string(), total_bytes: 12 }, &mut board);
    assert_eq!(board.uploads().len(), 1);
    assert_eq!(row(&board, "a.insv"), (0, 12, "uploading".to_string()));
}

#[test]
fn status_classes() {
    assert_eq!(status_class("completed"), "status-completed");
    assert_eq!(status_class("skipped"), "status-skipped");
    assert_eq!(status_class("failed: boom"), "status-failed");
    assert_eq!(status_class("failed"), "status-failed");
    assert_eq!(status_class("uploading"), "status-uploading");
    assert_eq!(status_class("fail"), "status-uploading");
}
