use crate::sync::{EventView, UploadEvent};
use crate::text::{joined, same_text};
use vstd::prelude::*;

verus! {

/// What the presentation layer shows of one file.
#[derive(Debug)]
pub struct UploadStatus {
    pub filename: String,
    pub bytes_uploaded: i64,
    pub total_bytes: i64,
    /// `uploading`, `completed`, `skipped`, or `failed: ` and the cause.
    pub status: String,
}

pub struct StatusView {
    pub filename: Seq<char>,
    pub bytes_uploaded: i64,
    pub total_bytes: i64,
    pub status: Seq<char>,
}

impl View for UploadStatus {
    type V = StatusView;

    open spec fn view(&self) -> StatusView {
        StatusView {
            filename: self.filename@,
            bytes_uploaded: self.bytes_uploaded,
            total_bytes: self.total_bytes,
            status: self.status@,
        }
    }
}

pub open spec fn uploading_text() -> Seq<char> {
    seq!['u', 'p', 'l', 'o', 'a', 'd', 'i', 'n', 'g']
}

pub open spec fn completed_text() -> Seq<char> {
    seq!['c', 'o', 'm', 'p', 'l', 'e', 't', 'e', 'd']
}

pub open spec fn skipped_text() -> Seq<char> {
    seq!['s', 'k', 'i', 'p', 'p', 'e', 'd']
}

pub open spec fn failed_prefix() -> Seq<char> {
    seq!['f', 'a', 'i', 'l', 'e', 'd']
}

/// `failed: ` followed by the cause.
pub open spec fn failed_text(error: Seq<char>) -> Seq<char> {
    failed_prefix() + seq![':', ' '] + error
}

/// The index of the row for `name` among `rows` from `i` on.
pub open spec fn row_of(rows: Seq<StatusView>, name: Seq<char>, i: int) -> Option<int>
    decreases rows.len() - i,
{
    if i < 0 || i >= rows.len() {
        None
    } else if rows[i].filename == name {
        Some(i)
    } else {
        row_of(rows, name, i + 1)
    }
}

/// `rows` with the row for `name`, if there is one, changed by `f`.
pub open spec fn update_row(
    rows: Seq<StatusView>,
    name: Seq<char>,
    f: spec_fn(StatusView) -> StatusView,
) -> Seq<StatusView> {
    match row_of(rows, name, 0) {
        Some(p) => rows.update(p, f(rows[p])),
        None => rows,
    }
}

/// The rows after an event: a started file gets a fresh `uploading` row (in
/// place of an earlier one of that name); progress sets the bytes sent; a
/// terminal event sets the status. Events of files without a row change
/// nothing.
pub open spec fn apply_event(rows: Seq<StatusView>, e: EventView) -> Seq<StatusView> {
    match e {
        EventView::CameraFound(_) => rows,
        EventView::FileStarted { filename, total_bytes } => {
            let row = StatusView {
                filename,
                bytes_uploaded: 0,
                total_bytes: total_bytes as i64,
                status: uploading_text(),
            };
            match row_of(rows, filename, 0) {
                Some(p) => rows.update(p, row),
                None => rows.push(row),
            }
        },
        EventView::FileProgress { filename, bytes_uploaded, .. } => update_row(
            rows,
            filename,
            |r: StatusView| StatusView { bytes_uploaded: bytes_uploaded as i64, ..r },
        ),
        EventView::FileSkipped { filename } => update_row(
            rows,
            filename,
            |r: StatusView| StatusView { status: skipped_text(), ..r },
        ),
        EventView::FileCompleted { filename } => update_row(
            rows,
            filename,
            |r: StatusView| StatusView { status: completed_text(), ..r },
        ),
        EventView::FileFailed { filename, error } => update_row(
            rows,
            filename,
            |r: StatusView| StatusView { status: failed_text(error), ..r },
        ),
    }
}

/// What the presentation layer shows of a run: the camera's identity, one
/// row per file, and how many files were skipped.
pub struct UploadBoard {
    device_id: String,
    uploads: Vec<UploadStatus>,
    skipped_count: usize,
}

impl UploadBoard {
    pub closed spec fn device(&self) -> Seq<char> {
        self.device_id@
    }

    pub closed spec fn rows(&self) -> Seq<StatusView> {
        self.uploads@.map_values(|u: UploadStatus| u@)
    }

    pub closed spec fn skipped(&self) -> int {
        self.skipped_count as int
    }

    /// No two rows are for the same file name.
    pub closed spec fn wf(&self) -> bool {
        forall|a: int, b: int|
            0 <= a < b < self.uploads@.len() ==> #[trigger] self.uploads@[a].filename@
                != #[trigger] self.uploads@[b].filename@
    }

    /// A board with no rows, showing `device_id` in place of a camera.
    pub fn new(device_id: String) -> (r: Self)
        ensures
            r.wf(),
            r.device() == device_id@,
            r.rows() == Seq::<StatusView>::empty(),
            r.skipped() == 0,
    {
        let r = UploadBoard { device_id, uploads: Vec::new(), skipped_count: 0 };
        assert(r.rows() =~= Seq::<StatusView>::empty());
        r
    }

    pub fn device_id(&self) -> (r: &String)
        ensures
            r@ == self.device(),
    {
        &self.device_id
    }

    pub fn uploads(&self) -> (r: &Vec<UploadStatus>)
        ensures
            r@.map_values(|u: UploadStatus| u@) == self.rows(),
    {
        &self.uploads
    }

    pub fn skipped_count(&self) -> (r: usize)
        ensures
            r == self.skipped(),
    {
        self.skipped_count
    }

    fn find_row(&self, name: &str) -> (r: Option<usize>)
        ensures
            r matches Some(p) ==> row_of(self.rows(), name@, 0) == Some(p as int) && p
                < self.uploads@.len(),
            r is None ==> row_of(self.rows(), name@, 0) is None,
    {
        let mut i: usize = 0;
        while i < self.uploads.len()
            invariant
                i <= self.uploads@.len(),
                row_of(self.rows(), name@, 0) == row_of(self.rows(), name@, i as int),
            decreases self.uploads@.len() - i,
        {
            if same_text(self.uploads[i].filename.as_str(), name) {
                return Some(i);
            }
            i = i + 1;
        }
        None
    }
}

proof fn lemma_row_of_found(rows: Seq<StatusView>, name: Seq<char>, i: int)
    requires
        0 <= i,
    ensures
        row_of(rows, name, i) matches Some(p) ==> i <= p < rows.len() && rows[p].filename == name,
        row_of(rows, name, i) is None ==> forall|k: int| i <= k < rows.len() ==> rows[k].filename != name,
    decreases rows.len() - i,
{
    if i < rows.len() && rows[i].filename != name {
        lemma_row_of_found(rows, name, i + 1);
    }
}

proof fn lemma_same_names_keep_wf(before: &UploadBoard, after: &UploadBoard)
    requires
        before.wf(),
        after.rows().len() == before.rows().len(),
        forall|k: int| 0 <= k < before.rows().len() ==> #[trigger] after.rows()[k].filename == before.rows()[k].filename,
    ensures
        after.wf(),
{
    assert forall|a: int, b: int|
        0 <= a < b < after.uploads@.len() implies #[trigger] after.uploads@[a].filename@
            != #[trigger] after.uploads@[b].filename@ by {
        assert(after.uploads@[a].filename@ == after.rows()[a].filename);
        assert(after.uploads@[b].filename@ == after.rows()[b].filename);
        assert(before.uploads@[a].filename@ == before.rows()[a].filename);
        assert(before.uploads@[b].filename@ == before.rows()[b].filename);
    }
}

/// The status text a row is drawn with: `status-completed`,
/// `status-skipped`, `status-failed` (a status that starts with `failed`), or
/// `status-uploading`.
pub open spec fn status_class_of(status: Seq<char>) -> Seq<char> {
    if status == completed_text() {
        seq!['s', 't', 'a', 't', 'u', 's', '-', 'c', 'o', 'm', 'p', 'l', 'e', 't', 'e', 'd']
    } else if status == skipped_text() {
        seq!['s', 't', 'a', 't', 'u', 's', '-', 's', 'k', 'i', 'p', 'p', 'e', 'd']
    } else if status.len() >= 6 && status.subrange(0, 6) == failed_prefix() {
        seq!['s', 't', 'a', 't', 'u', 's', '-', 'f', 'a', 'i', 'l', 'e', 'd']
    } else {
        seq!['s', 't', 'a', 't', 'u', 's', '-', 'u', 'p', 'l', 'o', 'a', 'd', 'i', 'n', 'g']
    }
}

/// The style class of a row with this status.
pub fn status_class(status: &str) -> (r: &'static str)
    ensures
        r@ == status_class_of(status@),
{
    proof {
        reveal_strlit("completed");
        reveal_strlit("skipped");
        reveal_strlit("failed");
        reveal_strlit("status-completed");
        reveal_strlit("status-skipped");
        reveal_strlit("status-failed");
        reveal_strlit("status-uploading");
    }
    assert("completed"@ =~= completed_text());
    assert("skipped"@ =~= skipped_text());
    assert("failed"@ =~= failed_prefix());
    assert("status-completed"@ =~= status_class_of(completed_text()));
    assert("status-skipped"@ =~= status_class_of(skipped_text()));
    if same_text(status, "completed") {
        "status-completed"
    } else if same_text(status, "skipped") {
        "status-skipped"
    } else if status.unicode_len() >= 6 && same_text(status.substring_char(0, 6), "failed") {
        assert("status-failed"@ =~= status_class_of(status@));
        "status-failed"
    } else {
        assert("status-uploading"@ =~= status_class_of(status@));
        "status-uploading"
    }
}

/// Updates the board with one event of a run: the camera's identity, the
/// file rows as `apply_event` says, and the skipped count, which grows by
/// one (up to `usize::MAX`) with each `FileSkipped`.
pub fn handle_upload_event(event: UploadEvent, board: &mut UploadBoard)
    requires
        old(board).wf(),
    ensures
        final(board).wf(),
        final(board).rows() == apply_event(old(board).rows(), event@),
        final(board).device() == match event@ {
            EventView::CameraFound(d) => d,
            _ => old(board).device(),
        },
        final(board).skipped() == if event@ is FileSkipped {
            if old(board).skipped() < usize::MAX {
                old(board).skipped() + 1
            } else {
                old(board).skipped()
            }
        } else {
            old(board).skipped()
        },
{
    let ghost rows0 = board.rows();
    let ghost e = event@;
    match event {
        UploadEvent::CameraFound(dev_id) => {
            board.device_id = dev_id;
        },
        UploadEvent::FileStarted { filename, total_bytes } => {
            let p = board.find_row(filename.as_str());
            proof {
                lemma_row_of_found(rows0, filename@, 0);
            }
            let row = UploadStatus {
                filename: filename,
                bytes_uploaded: 0,
                total_bytes,
                status: String::from_str("uploading"),
            };
            proof {
                reveal_strlit("uploading");
                assert("uploading"@ =~= uploading_text());
            }
            match p {
                Some(p) => {
                    board.uploads.set(p, row);
                    assert(board.rows() =~= apply_event(rows0, e));
                    proof {
                        lemma_same_names_keep_wf(old(board), board);
                    }
                },
                None => {
                    board.uploads.push(row);
                    assert(board.rows() =~= apply_event(rows0, e));
                    assert forall|a: int, b: int|
                        0 <= a < b < board.uploads@.len() implies #[trigger] board.uploads@[a].filename@
                            != #[trigger] board.uploads@[b].filename@ by {
                        assert(board.uploads@[a].filename@ == board.rows()[a].filename);
                        assert(board.uploads@[b].filename@ == board.rows()[b].filename);
                        if b == rows0.len() {
                            assert(rows0[a].filename != e->FileStarted_filename);
                        } else {
                            assert(old(board).uploads@[a] == board.uploads@[a]);
                            assert(old(board).uploads@[b] == board.uploads@[b]);
                        }
                    }
                },
            }
        },
        UploadEvent::FileProgress { filename, bytes_uploaded, total_bytes: _ } => {
            let p = board.find_row(filename.as_str());
            proof {
                lemma_row_of_found(rows0, filename@, 0);
            }
            if let Some(p) = p {
                board.uploads[p].bytes_uploaded = bytes_uploaded;
            }
            assert(board.rows() =~= apply_event(rows0, e));
            proof {
                lemma_same_names_keep_wf(old(board), board);
            }
        },
        UploadEvent::FileSkipped { filename } => {
            let p = board.find_row(filename.as_str());
            proof {
                lemma_row_of_found(rows0, filename@, 0);
                reveal_strlit("skipped");
                assert("skipped"@ =~= skipped_text());
            }
            if let Some(p) = p {
                board.uploads[p].status = String::from_str("skipped");
            }
            assert(board.rows() =~= apply_event(rows0, e));
            if board.skipped_count < usize::MAX {
                board.skipped_count = board.skipped_count + 1;
            }
        },
        UploadEvent::FileCompleted { filename } => {
            let p = board.find_row(filename.as_str());
            proof {
                lemma_row_of_found(rows0, filename@, 0);
                reveal_strlit("completed");
                assert("completed"@ =~= completed_text());
            }
            if let Some(p) = p {
                board.uploads[p].status = String::from_str("completed");
            }
            assert(board.rows() =~= apply_event(rows0, e));
            proof {
                lemma_same_names_keep_wf(old(board), board);
            }
        },
        UploadEvent::FileFailed { filename, error } => {
            let p = board.find_row(filename.as_str());
            proof {
                lemma_row_of_found(rows0, filename@, 0);
                reveal_strlit("failed: ");
                assert("failed: "@ + error@ =~= failed_text(error@));
            }
            if let Some(p) = p {
                board.uploads[p].status = joined("failed: ", error.as_str());
            }
            assert(board.rows() =~= apply_event(rows0, e));
            proof {
                lemma_same_names_keep_wf(old(board), board);
            }
        },
    }
}

} // verus!
