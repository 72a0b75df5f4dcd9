use crate::camera_finder::CameraInfo;
use crate::chunking::{
    chunk_bounds, chunk_plan, content_range_text, lemma_chunk_ends_monotonic,
    lemma_chunk_plan_partitions, plan_chunks, ChunkRange,
};
use crate::media::{has_media_extension, is_media_name};
use crate::model::{GetOrCreateUploadResponse, TicTacUploadRequest};
use crate::storage::{SkipCache, SkipKey, SkippedFile};
use crate::text::{decimal, decimal_string, joined};
use vstd::prelude::*;

verus! {

broadcast use vstd::seq_lib::group_seq_properties;

/// A regular file found on the camera volume, with its size at discovery.
#[derive(Debug)]
pub struct CandidateFile {
    pub path: String,
    pub filename: String,
    pub size: i64,
}

pub struct FileView {
    pub path: Seq<char>,
    pub filename: Seq<char>,
    pub size: i64,
}

impl View for CandidateFile {
    type V = FileView;

    open spec fn view(&self) -> FileView {
        FileView { path: self.path@, filename: self.filename@, size: self.size }
    }
}

impl CandidateFile {
    pub fn new(path: String, filename: String, size: i64) -> (r: Self)
        ensures
            r.path == path,
            r.filename == filename,
            r.size == size,
    {
        CandidateFile { path, filename, size }
    }

    /// A copy of the entry.
    pub fn duplicate(&self) -> (r: Self)
        ensures
            r@ == self@,
    {
        CandidateFile { path: self.path.clone(), filename: self.filename.clone(), size: self.size }
    }
}

/// A lifecycle event reported to the presentation layer.
#[derive(Debug)]
pub enum UploadEvent {
    CameraFound(String),
    FileStarted { filename: String, total_bytes: i64 },
    FileProgress { filename: String, bytes_uploaded: i64, total_bytes: i64 },
    FileSkipped { filename: String },
    FileCompleted { filename: String },
    FileFailed { filename: String, error: String },
}

pub enum EventView {
    CameraFound(Seq<char>),
    FileStarted { filename: Seq<char>, total_bytes: int },
    FileProgress { filename: Seq<char>, bytes_uploaded: int, total_bytes: int },
    FileSkipped { filename: Seq<char> },
    FileCompleted { filename: Seq<char> },
    FileFailed { filename: Seq<char>, error: Seq<char> },
}

impl View for UploadEvent {
    type V = EventView;

    open spec fn view(&self) -> EventView {
        match self {
            UploadEvent::CameraFound(d) => EventView::CameraFound(d@),
            UploadEvent::FileStarted { filename, total_bytes } => EventView::FileStarted {
                filename: filename@,
                total_bytes: *total_bytes as int,
            },
            UploadEvent::FileProgress { filename, bytes_uploaded, total_bytes } =>
                EventView::FileProgress {
                filename: filename@,
                bytes_uploaded: *bytes_uploaded as int,
                total_bytes: *total_bytes as int,
            },
            UploadEvent::FileSkipped { filename } => EventView::FileSkipped { filename: filename@ },
            UploadEvent::FileCompleted { filename } => EventView::FileCompleted {
                filename: filename@,
            },
            UploadEvent::FileFailed { filename, error } => EventView::FileFailed {
                filename: filename@,
                error: error@,
            },
        }
    }
}

pub open spec fn events_view(events: Seq<UploadEvent>) -> Seq<EventView> {
    events.map_values(|e: UploadEvent| e@)
}

pub open spec fn views(files: Seq<CandidateFile>) -> Seq<FileView> {
    files.map_values(|f: CandidateFile| f@)
}

/// The content type under which camera video is declared.
pub open spec fn video_content_type() -> Seq<char> {
    seq!['v', 'i', 'd', 'e', 'o', '/', 'i', 'n', 's', 'v']
}

/// Whether an HTTP status is a success (2xx).
pub open spec fn is_success(status: u16) -> bool {
    200 <= status <= 299
}

pub open spec fn create_failure_text(status_text: Seq<char>) -> Seq<char> {
    seq![
        'F', 'a', 'i', 'l', 'e', 'd', ' ', 't', 'o', ' ', 'c', 'r', 'e', 'a', 't', 'e', ' ', 'u',
        'p', 'l', 'o', 'a', 'd', ':', ' ',
    ] + status_text
}

pub open spec fn chunk_failure_text(part: int, status_text: Seq<char>) -> Seq<char> {
    seq![
        'F', 'a', 'i', 'l', 'e', 'd', ' ', 't', 'o', ' ', 'u', 'p', 'l', 'o', 'a', 'd', ' ', 'c',
        'h', 'u', 'n', 'k', ' ',
    ] + decimal(part) + seq![':', ' '] + status_text
}

pub open spec fn key_of(f: FileView, device: Seq<char>) -> SkipKey {
    (f.filename, f.size, device)
}

/// A listed file that is a camera video already in the skip cache.
pub open spec fn is_hit(f: FileView, cache: Set<SkipKey>, device: Seq<char>) -> bool {
    is_media_name(f.filename) && cache.contains(key_of(f, device))
}

/// A listed file that is a camera video not in the skip cache.
pub open spec fn is_queued(f: FileView, cache: Set<SkipKey>, device: Seq<char>) -> bool {
    is_media_name(f.filename) && !cache.contains(key_of(f, device))
}

pub open spec fn listing_hits(entries: Seq<FileView>, cache: Set<SkipKey>, device: Seq<char>) -> Seq<
    FileView,
> {
    entries.filter(|f: FileView| is_hit(f, cache, device))
}

pub open spec fn listing_queue(entries: Seq<FileView>, cache: Set<SkipKey>, device: Seq<char>) -> Seq<
    FileView,
> {
    entries.filter(|f: FileView| is_queued(f, cache, device))
}

pub open spec fn started(f: FileView) -> EventView {
    EventView::FileStarted { filename: f.filename, total_bytes: f.size as int }
}

pub open spec fn skipped(f: FileView) -> EventView {
    EventView::FileSkipped { filename: f.filename }
}

pub open spec fn skip_events(files: Seq<FileView>) -> Seq<EventView> {
    files.map_values(|f: FileView| skipped(f))
}

/// The progress events of the first `n` accepted chunks of a file.
pub open spec fn progress_prefix(f: FileView, parts: int, n: int) -> Seq<EventView> {
    Seq::new(
        n as nat,
        |k: int|
            EventView::FileProgress {
                filename: f.filename,
                bytes_uploaded: chunk_bounds(f.size as int, parts, k).1,
                total_bytes: f.size as int,
            },
    )
}

/// The events of a file being uploaded whose first `n` chunks were accepted.
pub open spec fn upload_segment(f: FileView, parts: int, n: int) -> Seq<EventView> {
    seq![started(f)] + progress_prefix(f, parts, n)
}

pub open spec fn is_terminal_for(e: EventView, name: Seq<char>) -> bool {
    ||| e == EventView::FileSkipped { filename: name }
    ||| e == EventView::FileCompleted { filename: name }
    ||| e matches EventView::FileFailed { filename, .. } && filename == name
}

pub open spec fn is_progress_for(e: EventView, f: FileView) -> bool {
    e matches EventView::FileProgress { filename, total_bytes, .. } && filename == f.filename
        && total_bytes == f.size
}

pub open spec fn progress_bytes(e: EventView) -> int {
    match e {
        EventView::FileProgress { bytes_uploaded, .. } => bytes_uploaded,
        _ => 0,
    }
}

/// The events of one file, from first to last: either a single `FileSkipped`
/// (a cache hit), or `FileStarted`, then progress events with non-decreasing
/// byte counts, then exactly one terminal event.
pub open spec fn lifecycle_complete(seg: Seq<EventView>, f: FileView) -> bool {
    ||| seg == seq![skipped(f)]
    ||| {
        &&& seg.len() >= 2
        &&& seg[0] == started(f)
        &&& is_terminal_for(seg.last(), f.filename)
        &&& forall|k: int| 0 < k < seg.len() - 1 ==> is_progress_for(#[trigger] seg[k], f)
        &&& forall|a: int, b: int|
            0 < a <= b < seg.len() - 1 ==> progress_bytes(#[trigger] seg[a]) <= progress_bytes(
                #[trigger] seg[b],
            )
    }
}

pub open spec fn ends_skipped(seg: Seq<EventView>) -> bool {
    seg.len() > 0 && seg.last() is FileSkipped
}

/// What the engine is waiting for.
#[derive(Debug)]
pub enum Phase {
    /// The camera volume is being looked for.
    Locating,
    /// The camera volume's files are being listed.
    Listing,
    /// The remote service is being asked about the current file.
    Negotiating,
    /// The current file is being sent, chunk `next` being the one in flight.
    Uploading { upload_id: String, next: usize },
    /// The run is over.
    Done,
}

pub enum PhaseView {
    Locating,
    Listing,
    Negotiating,
    Uploading { upload_id: Seq<char>, next: int },
    Done,
}

impl View for Phase {
    type V = PhaseView;

    open spec fn view(&self) -> PhaseView {
        match self {
            Phase::Locating => PhaseView::Locating,
            Phase::Listing => PhaseView::Listing,
            Phase::Negotiating => PhaseView::Negotiating,
            Phase::Uploading { upload_id, next } => PhaseView::Uploading {
                upload_id: upload_id@,
                next: *next as int,
            },
            Phase::Done => PhaseView::Done,
        }
    }
}

/// The outside work the engine asks for next.
#[derive(Debug)]
pub enum SyncAction {
    /// Find the camera volume and report it with `on_located`.
    LocateVolume,
    /// List the regular files under `root` and report them with `on_listed`.
    ListFiles { root: String },
    /// Send `request` to the remote service and report the answer with
    /// `on_negotiated` (or `on_failure`).
    Negotiate { request: TicTacUploadRequest },
    /// Read `range` of the file at `path`, send it under `upload_id` with the
    /// `Content-Range` header `content_range`, and report the answer with
    /// `on_chunk_sent` (or `on_failure`).
    UploadChunk {
        path: String,
        upload_id: String,
        part: usize,
        range: ChunkRange,
        content_range: String,
    },
    /// Nothing is left to do.
    Finish,
}

/// What one reply produced: the events to report, in order, and the record
/// that was added to the skip cache, if any, for the caller to persist.
#[derive(Debug)]
pub struct Step {
    pub events: Vec<UploadEvent>,
    pub record: Option<SkippedFile>,
}

/// One sync run: locate the camera, list its files, drop those the skip cache
/// rules out, and take every other one through negotiation and a chunked
/// upload, one file at a time.
pub struct SyncRun {
    phase: Phase,
    parts: i32,
    cache: SkipCache,
    camera_found: bool,
    device_id: String,
    root: String,
    queue: Vec<CandidateFile>,
    current: usize,
    plan: Vec<ChunkRange>,
    hits: Ghost<Seq<FileView>>,
    segs: Ghost<Seq<Seq<EventView>>>,
    cur: Ghost<Seq<EventView>>,
}

impl SyncRun {
    pub closed spec fn phase_view(&self) -> PhaseView {
        self.phase@
    }

    /// The number of parts each file is requested to be cut into.
    pub closed spec fn parts(&self) -> int {
        self.parts as int
    }

    pub closed spec fn cache_view(&self) -> Set<SkipKey> {
        self.cache@
    }

    pub closed spec fn found(&self) -> bool {
        self.camera_found
    }

    pub closed spec fn device(&self) -> Seq<char> {
        self.device_id@
    }

    pub closed spec fn root_view(&self) -> Seq<char> {
        self.root@
    }

    /// The files that go through negotiation, in order.
    pub closed spec fn queued(&self) -> Seq<FileView> {
        views(self.queue@)
    }

    /// The index in `queued` of the file in negotiation or upload.
    pub closed spec fn current(&self) -> int {
        self.current as int
    }

    /// Every candidate file in the order its events come: the cache hits,
    /// then the queued files.
    pub closed spec fn files(&self) -> Seq<FileView> {
        self.hits@ + views(self.queue@)
    }

    /// The events of each file that has reached its terminal event, in order.
    pub closed spec fn segments(&self) -> Seq<Seq<EventView>> {
        self.segs@
    }

    /// The events reported so far for the file in progress.
    pub closed spec fn in_progress(&self) -> Seq<EventView> {
        self.cur@
    }

    /// `CameraFound`, once the camera was found.
    pub closed spec fn head(&self) -> Seq<EventView> {
        if self.camera_found {
            seq![EventView::CameraFound(self.device_id@)]
        } else {
            Seq::empty()
        }
    }

    /// Every event reported since the run began, in order.
    pub closed spec fn log(&self) -> Seq<EventView> {
        self.head() + self.segs@.flatten() + self.cur@
    }

    /// The file in negotiation or upload.
    pub closed spec fn current_file(&self) -> FileView {
        self.queue@[self.current as int]@
    }

    /// The events that open the file after the current one, if there is one.
    pub closed spec fn next_start(&self) -> Seq<EventView> {
        if self.current + 1 < self.queue@.len() {
            seq![started(self.queue@[self.current + 1]@)]
        } else {
            Seq::empty()
        }
    }

    /// The same run, as far as a caller can tell.
    pub closed spec fn same_as(&self, other: &SyncRun) -> bool {
        &&& self.phase@ == other.phase@
        &&& self.parts == other.parts
        &&& self.cache@ == other.cache@
        &&& self.camera_found == other.camera_found
        &&& self.device_id@ == other.device_id@
        &&& self.root@ == other.root@
        &&& views(self.queue@) == views(other.queue@)
        &&& self.current == other.current
        &&& self.hits@ == other.hits@
        &&& self.segs@ == other.segs@
        &&& self.cur@ == other.cur@
    }

    /// After the current file reached its terminal event: the next file is
    /// in negotiation, or the run is over.
    pub closed spec fn advanced_from(&self, old: &SyncRun) -> bool {
        &&& self.parts == old.parts
        &&& self.camera_found == old.camera_found
        &&& self.device_id@ == old.device_id@
        &&& self.root@ == old.root@
        &&& views(self.queue@) == views(old.queue@)
        &&& self.hits@ == old.hits@
        &&& self.current == old.current + 1
        &&& if old.current + 1 < old.queue@.len() {
            self.phase@ == PhaseView::Negotiating
        } else {
            self.phase@ == PhaseView::Done
        }
    }

    closed spec fn plan_matches(&self) -> bool {
        &&& self.current < self.queue@.len()
        &&& self.plan@.len() == chunk_plan(
            self.queue@[self.current as int].size as int,
            self.parts as int,
        ).len()
        &&& forall|k: int|
            0 <= k < self.plan@.len() ==> (self.plan@[k].start as int, self.plan@[k].end as int)
                == chunk_bounds(self.queue@[self.current as int].size as int, self.parts as int, k)
    }

    /// What holds of every run, whatever the phase.
    closed spec fn wf_common(&self) -> bool {
        let h = self.hits@.len();
        &&& forall|j: int| 0 <= j < self.queue@.len() ==> #[trigger] self.queue@[j].size >= 0
        &&& forall|j: int| 0 <= j < self.queue@.len() ==> is_media_name(#[trigger] self.queue@[j].filename@)
        &&& forall|j: int| 0 <= j < h ==> is_media_name(#[trigger] self.hits@[j].filename)
        &&& h <= self.segs@.len() <= h + self.queue@.len()
        &&& forall|i: int| 0 <= i < h ==> #[trigger] self.segs@[i] == seq![skipped(self.hits@[i])]
        &&& forall|j: int|
            0 <= j < self.segs@.len() - h ==> lifecycle_complete(
                #[trigger] self.segs@[h + j],
                self.queue@[j]@,
            )
        &&& forall|i: int|
            0 <= i < self.segs@.len() && ends_skipped(#[trigger] self.segs@[i])
                ==> self.cache@.contains(key_of(self.files()[i], self.device_id@))
        &&& !self.camera_found ==> h == 0 && self.queue@.len() == 0
    }

    /// The invariant of a run.
    pub closed spec fn wf(&self) -> bool {
        let h = self.hits@.len();
        &&& self.wf_common()
        &&& match self.phase {
            Phase::Locating => {
                &&& !self.camera_found
                &&& self.segs@.len() == 0
                &&& self.cur@.len() == 0
            },
            Phase::Listing => {
                &&& self.camera_found
                &&& h == 0
                &&& self.queue@.len() == 0
                &&& self.segs@.len() == 0
                &&& self.cur@.len() == 0
            },
            Phase::Negotiating => {
                &&& self.current < self.queue@.len()
                &&& self.segs@.len() == h + self.current
                &&& self.cur@ == upload_segment(self.current_file(), self.parts as int, 0)
            },
            Phase::Uploading { upload_id, next } => {
                &&& self.plan_matches()
                &&& self.segs@.len() == h + self.current
                &&& next < self.plan@.len()
                &&& self.cur@ == upload_segment(self.current_file(), self.parts as int, next as int)
            },
            Phase::Done => {
                &&& self.segs@.len() == h + self.queue@.len()
                &&& self.cur@.len() == 0
            },
        }
    }

    /// A run that has not yet looked for the camera, with the skip cache as
    /// loaded and the number of parts each file is to be cut into.
    pub fn new(cache: SkipCache, parts: i32) -> (r: Self)
        ensures
            r.wf(),
            r.phase_view() == PhaseView::Locating,
            r.cache_view() == cache@,
            r.parts() == parts,
            r.log() == Seq::<EventView>::empty(),
    {
        let r = SyncRun {
            phase: Phase::Locating,
            parts,
            cache,
            camera_found: false,
            device_id: String::new(),
            root: String::new(),
            queue: Vec::new(),
            current: 0,
            plan: Vec::new(),
            hits: Ghost(Seq::empty()),
            segs: Ghost(Seq::empty()),
            cur: Ghost(Seq::empty()),
        };
        assert(r.segs@.flatten() =~= Seq::<EventView>::empty());
        assert(r.log() =~= Seq::<EventView>::empty());
        r
    }

    /// The skip cache, with the records this run added.
    pub fn cache(&self) -> (r: &SkipCache)
        ensures
            r@ == self.cache_view(),
    {
        &self.cache
    }

    /// Whether the run is over.
    pub fn is_done(&self) -> (r: bool)
        ensures
            r == (self.phase_view() == PhaseView::Done),
    {
        match self.phase {
            Phase::Done => true,
            _ => false,
        }
    }
    /// The outside work to do next.
    pub fn action(&self) -> (r: SyncAction)
        requires
            self.wf(),
        ensures
            self.phase_view() is Locating ==> r is LocateVolume,
            self.phase_view() is Listing ==> (r matches SyncAction::ListFiles { root } && root@
                == self.root_view()),
            self.phase_view() is Negotiating ==> (r matches SyncAction::Negotiate { request }
                && request.device_id@ == self.device() && request.device_filename@
                == self.current_file().filename && request.content_type@ == video_content_type()
                && request.size == self.current_file().size && request.num_parts == self.parts()),
            self.phase_view() matches PhaseView::Uploading { upload_id, next } ==> (
            r matches SyncAction::UploadChunk { path, upload_id: id, part, range, content_range }
                && path@ == self.current_file().path && id@ == upload_id && part == next && (
            range.start as int, range.end as int) == chunk_bounds(
                self.current_file().size as int,
                self.parts(),
                next,
            ) && content_range@ == content_range_text(
                range.start as int,
                range.end as int,
                self.current_file().size as int,
            )),
            self.phase_view() is Done ==> r is Finish,
    {
        match &self.phase {
            Phase::Locating => SyncAction::LocateVolume,
            Phase::Listing => SyncAction::ListFiles { root: self.root.clone() },
            Phase::Negotiating => {
                let f = &self.queue[self.current];
                let content_type = "video/insv";
                proof {
                    reveal_strlit("video/insv");
                }
                let request = TicTacUploadRequest::new(
                    self.device_id.clone(),
                    f.filename.clone(),
                    String::from_str(content_type),
                    f.size,
                    self.parts,
                );
                SyncAction::Negotiate { request }
            },
            Phase::Uploading { upload_id, next } => {
                let f = &self.queue[self.current];
                let range = self.plan[*next];
                proof {
                    assert(self.queue@[self.current as int].size >= 0);
                    lemma_chunk_plan_partitions(f.size as int, self.parts as int);
                    let p = chunk_plan(f.size as int, self.parts as int);
                    assert(p[*next as int] == chunk_bounds(
                        f.size as int,
                        self.parts as int,
                        *next as int,
                    ));
                    assert(0 <= p[*next as int].0 <= p[*next as int].1);
                    assert((range.start as int, range.end as int) == p[*next as int]);
                }
                let content_range = range.content_range(f.size);
                SyncAction::UploadChunk {
                    path: f.path.clone(),
                    upload_id: upload_id.clone(),
                    part: *next,
                    range,
                    content_range,
                }
            },
            Phase::Done => SyncAction::Finish,
        }
    }

    /// Takes the result of looking for the camera volume: without one the run
    /// is over and reports nothing; with one it reports `CameraFound` and asks
    /// for the volume's files.
    pub fn on_located(&mut self, found: Option<CameraInfo>) -> (out: Step)
        requires
            old(self).wf(),
        ensures
            final(self).wf(),
            final(self).log() == old(self).log() + events_view(out.events@),
            out.record is None,
            final(self).cache_view() == old(self).cache_view(),
            old(self).phase_view() is Locating && found is None ==> final(self).phase_view()
                is Done && out.events@.len() == 0,
            old(self).phase_view() is Locating ==> (found matches Some(info)
                ==> final(self).phase_view() is Listing && final(self).found()
                && final(self).device() == info.device_id@
                && final(self).root_view() == info.mount_point@
                && events_view(out.events@) == seq![EventView::CameraFound(info.device_id@)]),
            !(old(self).phase_view() is Locating) ==> final(self).same_as(old(self))
                && out.events@.len() == 0,
    {
        let mut events: Vec<UploadEvent> = Vec::new();
        if let Phase::Locating = self.phase {
            match found {
                None => {
                    self.phase = Phase::Done;
                    assert(self.log() =~= old(self).log());
                },
                Some(info) => {
                    events.push(UploadEvent::CameraFound(info.device_id.clone()));
                    self.camera_found = true;
                    self.device_id = info.device_id;
                    self.root = info.mount_point;
                    self.phase = Phase::Listing;
                    assert(self.segs@.flatten() =~= Seq::<EventView>::empty());
                    assert(events_view(events@) =~= seq![EventView::CameraFound(self.device_id@)]);
                    assert(self.log() =~= old(self).log() + events_view(events@));
                },
            }
        } else {
            assert(self.log() =~= old(self).log() + events_view(events@));
        }
        Step { events, record: None }
    }
    /// Closes the current file's events with `terminal` and moves on to the
    /// next file, reporting its `FileStarted`, or ends the run.
    fn finish_file(&mut self, terminal: UploadEvent, events: &mut Vec<UploadEvent>)
        requires
            old(self).wf_common(),
            old(self).current < old(self).queue@.len(),
            old(self).segs@.len() == old(self).hits@.len() + old(self).current,
            lifecycle_complete(old(self).cur@.push(terminal@), old(self).current_file()),
            ends_skipped(old(self).cur@.push(terminal@)) ==> old(self).cache@.contains(
                key_of(old(self).current_file(), old(self).device_id@),
            ),
        ensures
            final(self).wf(),
            final(self).advanced_from(old(self)),
            final(self).cache@ == old(self).cache@,
            final(self).log() == old(self).log() + seq![terminal@] + old(self).next_start(),
            events_view(final(events)@) == events_view(old(events)@) + seq![terminal@] + old(self).next_start(),
    {
        let ghost t = terminal@;
        let ghost seg = self.cur@.push(t);
        let ghost before = events_view(events@);
        events.push(terminal);
        assert(events_view(events@) =~= before + seq![t]);
        proof {
            Seq::lemma_flatten_push(self.segs@, seg);
        }
        self.segs = Ghost(self.segs@.push(seg));
        let qlen = self.queue.len();
        let next = self.current + 1;
        self.current = next;
        if next < qlen {
            let f = &self.queue[next];
            let ghost mid = events_view(events@);
            events.push(UploadEvent::FileStarted { filename: f.filename.clone(), total_bytes: f.size });
            assert(events_view(events@) =~= mid + seq![started(f@)]);
            self.phase = Phase::Negotiating;
            self.cur = Ghost(upload_segment(f@, self.parts as int, 0));
            assert(self.cur@ =~= seq![started(f@)]);
        } else {
            self.phase = Phase::Done;
            self.cur = Ghost(Seq::empty());
        }
        proof {
            let h = self.hits@.len();
            assert forall|i: int|
                0 <= i < self.segs@.len() && ends_skipped(#[trigger] self.segs@[i])
                    implies self.cache@.contains(key_of(self.files()[i], self.device_id@)) by {
                if i < self.segs@.len() - 1 {
                    assert(self.segs@[i] == old(self).segs@[i]);
                    assert(self.files()[i] == old(self).files()[i]);
                } else {
                    assert(self.files()[i] == old(self).current_file());
                }
            }
            assert forall|j: int| 0 <= j < self.segs@.len() - h implies lifecycle_complete(
                #[trigger] self.segs@[h + j],
                self.queue@[j]@,
            ) by {
                if j < old(self).current {
                    assert(self.segs@[h + j] == old(self).segs@[h + j]);
                }
            }
            assert(self.log() =~= old(self).log() + seq![t] + old(self).next_start());
        }
    }

    /// Takes a failure of the request in flight (the connection, the file
    /// read, or a malformed answer): the current file fails with `message`
    /// and the run moves on to the next file.
    pub fn on_failure(&mut self, message: String) -> (out: Step)
        requires
            old(self).wf(),
        ensures
            final(self).wf(),
            final(self).log() == old(self).log() + events_view(out.events@),
            out.record is None,
            final(self).cache_view() == old(self).cache_view(),
            (old(self).phase_view() is Negotiating || old(self).phase_view() is Uploading) ==> (
            final(self).advanced_from(old(self)) && events_view(out.events@) == seq![
                EventView::FileFailed { filename: old(self).current_file().filename, error: message@ },
            ] + old(self).next_start()),
            !(old(self).phase_view() is Negotiating || old(self).phase_view() is Uploading)
                ==> final(self).same_as(old(self)) && out.events@.len() == 0,
    {
        let mut events: Vec<UploadEvent> = Vec::new();
        let n: usize = match &self.phase {
            Phase::Negotiating => 0,
            Phase::Uploading { upload_id: _, next } => *next,
            _ => {
                assert(self.log() =~= old(self).log() + events_view(events@));
                return Step { events, record: None };
            },
        };
        let ghost f = self.current_file();
        let filename = self.queue[self.current].filename.clone();
        let failed = UploadEvent::FileFailed { filename, error: message };
        proof {
            lemma_upload_segment_complete(f, self.parts as int, n as int, failed@);
        }
        assert(events_view(events@) =~= Seq::<EventView>::empty());
        self.finish_file(failed, &mut events);
        Step { events, record: None }
    }
    /// Takes the remote service's answer about the current file. A status
    /// other than 2xx, or a body that could not be read, fails the file. An
    /// answer without an upload identifier means the file is already there:
    /// it is added to the skip cache and reported skipped. An upload
    /// identifier starts the chunked upload.
    pub fn on_negotiated(
        &mut self,
        status: u16,
        status_text: String,
        body: Result<GetOrCreateUploadResponse, String>,
    ) -> (out: Step)
        requires
            old(self).wf(),
        ensures
            final(self).wf(),
            final(self).log() == old(self).log() + events_view(out.events@),
            !(old(self).phase_view() is Negotiating) ==> final(self).same_as(old(self))
                && out.events@.len() == 0 && out.record is None,
            old(self).phase_view() is Negotiating && !is_success(status) ==> final(self).advanced_from(old(self)) && final(self).cache_view() == old(self).cache_view()
                && out.record is None && events_view(out.events@) == seq![
                EventView::FileFailed {
                    filename: old(self).current_file().filename,
                    error: create_failure_text(status_text@),
                },
            ] + old(self).next_start(),
            old(self).phase_view() is Negotiating && is_success(status) ==> (body matches Err(
                msg,
            ) ==> final(self).advanced_from(old(self)) && final(self).cache_view() == old(self).cache_view() && out.record is None && events_view(out.events@) == seq![
                EventView::FileFailed { filename: old(self).current_file().filename, error: msg@ },
            ] + old(self).next_start()),
            old(self).phase_view() is Negotiating && is_success(status) ==> (body matches Ok(resp)
                ==> (resp.upload_id is None ==> (final(self).advanced_from(old(self))
                && final(self).cache_view() == old(self).cache_view().insert(
                key_of(old(self).current_file(), old(self).device()),
            ) && (out.record matches Some(rec) && rec@ == key_of(
                old(self).current_file(),
                old(self).device(),
            )) && events_view(out.events@) == seq![skipped(old(self).current_file())] + old(self).next_start()))),
            old(self).phase_view() is Negotiating && is_success(status) ==> (body matches Ok(resp)
                ==> (resp.upload_id matches Some(id) ==> (final(self).phase_view()
                == PhaseView::Uploading { upload_id: id@, next: 0 } && final(self).current()
                == old(self).current() && final(self).queued() == old(self).queued()
                && final(self).cache_view() == old(self).cache_view() && out.record is None
                && out.events@.len() == 0))),
    {
        let mut events: Vec<UploadEvent> = Vec::new();
        let negotiating = match self.phase {
            Phase::Negotiating => true,
            _ => false,
        };
        if !negotiating {
            assert(self.log() =~= old(self).log() + events_view(events@));
            return Step { events, record: None };
        }
        assert(events_view(events@) =~= Seq::<EventView>::empty());
        let ghost f = self.current_file();
        let filename = self.queue[self.current].filename.clone();
        let size = self.queue[self.current].size;
        if !(200 <= status && status <= 299) {
            let prefix = "Failed to create upload: ";
            proof {
                reveal_strlit("Failed to create upload: ");
            }
            let error = joined(prefix, status_text.as_str());
            assert(error@ =~= create_failure_text(status_text@));
            let failed = UploadEvent::FileFailed { filename, error };
            proof {
                lemma_upload_segment_complete(f, self.parts as int, 0, failed@);
            }
            self.finish_file(failed, &mut events);
            return Step { events, record: None };
        }
        match body {
            Err(msg) => {
                let failed = UploadEvent::FileFailed { filename, error: msg };
                proof {
                    lemma_upload_segment_complete(f, self.parts as int, 0, failed@);
                }
                self.finish_file(failed, &mut events);
                Step { events, record: None }
            },
            Ok(resp) => match resp.upload_id {
                None => {
                    let record = SkippedFile::new(filename.clone(), size, self.device_id.clone());
                    let persisted = record.duplicate();
                    self.cache.insert(record);
                    let done = UploadEvent::FileSkipped { filename };
                    proof {
                        lemma_upload_segment_complete(f, self.parts as int, 0, done@);
                    }
                    self.finish_file(done, &mut events);
                    Step { events, record: Some(persisted) }
                },
                Some(id) => {
                    proof {
                        assert(self.queue@[self.current as int].size >= 0);
                    }
                    self.plan = plan_chunks(size, self.parts);
                    let ghost id_view = id@;
                    self.phase = Phase::Uploading { upload_id: id, next: 0 };
                    assert(self.phase@ == PhaseView::Uploading { upload_id: id_view, next: 0 });
                    assert forall|k: int| 0 <= k < self.plan@.len() implies (
                    self.plan@[k].start as int, self.plan@[k].end as int) == chunk_bounds(
                        self.queue@[self.current as int].size as int,
                        self.parts as int,
                        k,
                    ) by {
                        assert(chunk_plan(size as int, self.parts as int)[k] == chunk_bounds(
                            size as int,
                            self.parts as int,
                            k,
                        ));
                    }
                    assert(self.plan_matches());
                    assert(self.cur@ == upload_segment(self.current_file(), self.parts as int, 0));
                    assert(self.log() =~= old(self).log() + events_view(events@));
                    Step { events, record: None }
                },
            },
        }
    }

    /// Takes the remote service's answer to the chunk in flight. A status
    /// other than 2xx fails the file, and no later chunk of it is sent. A
    /// success reports the bytes sent so far; after the last chunk it also
    /// reports the file completed.
    pub fn on_chunk_sent(&mut self, status: u16, status_text: String) -> (out: Step)
        requires
            old(self).wf(),
        ensures
            final(self).wf(),
            final(self).log() == old(self).log() + events_view(out.events@),
            out.record is None,
            final(self).cache_view() == old(self).cache_view(),
            !(old(self).phase_view() is Uploading) ==> final(self).same_as(old(self))
                && out.events@.len() == 0,
            old(self).phase_view() matches PhaseView::Uploading { upload_id, next } ==> (
            !is_success(status) ==> final(self).advanced_from(old(self)) && events_view(
                out.events@,
            ) == seq![
                EventView::FileFailed {
                    filename: old(self).current_file().filename,
                    error: chunk_failure_text(next, status_text@),
                },
            ] + old(self).next_start()),
            old(self).phase_view() matches PhaseView::Uploading { upload_id, next } ==> (
            is_success(status) && next + 1 < old(self).parts() ==> final(self).phase_view()
                == PhaseView::Uploading { upload_id, next: next + 1 } && final(self).current()
                == old(self).current() && final(self).queued() == old(self).queued()
                && events_view(out.events@) == seq![
                EventView::FileProgress {
                    filename: old(self).current_file().filename,
                    bytes_uploaded: chunk_bounds(
                        old(self).current_file().size as int,
                        old(self).parts(),
                        next,
                    ).1,
                    total_bytes: old(self).current_file().size as int,
                },
            ]),
            old(self).phase_view() matches PhaseView::Uploading { upload_id, next } ==> (
            is_success(status) && next + 1 >= old(self).parts() ==> final(self).advanced_from(
                old(self),
            ) && events_view(out.events@) == seq![
                EventView::FileProgress {
                    filename: old(self).current_file().filename,
                    bytes_uploaded: chunk_bounds(
                        old(self).current_file().size as int,
                        old(self).parts(),
                        next,
                    ).1,
                    total_bytes: old(self).current_file().size as int,
                },
                EventView::FileCompleted { filename: old(self).current_file().filename },
            ] + old(self).next_start()),
    {
        let mut events: Vec<UploadEvent> = Vec::new();
        let next: usize = match &self.phase {
            Phase::Uploading { upload_id: _, next } => *next,
            _ => {
                assert(self.log() =~= old(self).log() + events_view(events@));
                return Step { events, record: None };
            },
        };
        assert(events_view(events@) =~= Seq::<EventView>::empty());
        let ghost f = self.current_file();
        let filename = self.queue[self.current].filename.clone();
        let size = self.queue[self.current].size;
        if !(200 <= status && status <= 299) {
            let prefix = "Failed to upload chunk ";
            let colon = ": ";
            proof {
                reveal_strlit("Failed to upload chunk ");
                reveal_strlit(": ");
            }
            let error = joined(prefix, decimal_string(next as i64).as_str());
            let error = error.concat(colon);
            let error = error.concat(status_text.as_str());
            assert(error@ =~= chunk_failure_text(next as int, status_text@));
            let failed = UploadEvent::FileFailed { filename, error };
            proof {
                lemma_upload_segment_complete(f, self.parts as int, next as int, failed@);
            }
            self.finish_file(failed, &mut events);
            return Step { events, record: None };
        }
        let bytes = self.plan[next].end;
        let ghost before = self.cur@;
        events.push(
            UploadEvent::FileProgress { filename: filename.clone(), bytes_uploaded: bytes, total_bytes: size },
        );
        let ghost progress = events@[0]@;
        self.cur = Ghost(upload_segment(f, self.parts as int, next as int + 1));
        assert(self.cur@ =~= before.push(progress));
        assert(events_view(events@) =~= seq![progress]);
        if next + 1 < self.plan.len() {
            let id = match &self.phase {
                Phase::Uploading { upload_id, next: _ } => upload_id.clone(),
                _ => String::new(),
            };
            self.phase = Phase::Uploading { upload_id: id, next: next + 1 };
            assert(self.log() =~= old(self).log() + events_view(events@));
            Step { events, record: None }
        } else {
            let done = UploadEvent::FileCompleted { filename };
            proof {
                lemma_upload_segment_complete(f, self.parts as int, next as int + 1, done@);
                assert(self.log() =~= old(self).log() + seq![progress]);
            }
            self.finish_file(done, &mut events);
            Step { events, record: None }
        }
    }
    /// Takes the regular files found under the volume's root. Camera videos
    /// that the skip cache holds for this device are reported skipped at
    /// once, in listing order; the other camera videos are queued, in listing
    /// order, and the first of them is started. Other files are ignored.
    pub fn on_listed(&mut self, entries: Vec<CandidateFile>) -> (out: Step)
        requires
            old(self).wf(),
            forall|j: int| 0 <= j < entries@.len() ==> #[trigger] entries@[j].size >= 0,
        ensures
            final(self).wf(),
            final(self).log() == old(self).log() + events_view(out.events@),
            out.record is None,
            final(self).cache_view() == old(self).cache_view(),
            !(old(self).phase_view() is Listing) ==> final(self).same_as(old(self))
                && out.events@.len() == 0,
            old(self).phase_view() is Listing ==> ({
                let hits = listing_hits(views(entries@), old(self).cache_view(), old(self).device());
                let queue = listing_queue(
                    views(entries@),
                    old(self).cache_view(),
                    old(self).device(),
                );
                &&& final(self).files() == hits + queue
                &&& final(self).queued() == queue
                &&& final(self).device() == old(self).device()
                &&& final(self).current() == 0
                &&& events_view(out.events@) == skip_events(hits) + if queue.len() > 0 {
                    seq![started(queue[0])]
                } else {
                    Seq::empty()
                }
                &&& final(self).phase_view() == if queue.len() > 0 {
                    PhaseView::Negotiating
                } else {
                    PhaseView::Done
                }
            }),
    {
        let mut events: Vec<UploadEvent> = Vec::new();
        let listing = match self.phase {
            Phase::Listing => true,
            _ => false,
        };
        if !listing {
            assert(self.log() =~= old(self).log() + events_view(events@));
            return Step { events, record: None };
        }
        let ghost ev = views(entries@);
        let ghost cache = self.cache@;
        let ghost dev = self.device_id@;
        let mut queue: Vec<CandidateFile> = Vec::new();
        let ghost mut hits: Seq<FileView> = Seq::empty();
        let ghost mut segs: Seq<Seq<EventView>> = Seq::empty();
        let mut i: usize = 0;
        while i < entries.len()
            invariant
                i <= entries@.len(),
                ev == views(entries@),
                cache == self.cache@,
                dev == self.device_id@,
                forall|j: int| 0 <= j < entries@.len() ==> #[trigger] entries@[j].size >= 0,
                hits == listing_hits(ev.subrange(0, i as int), cache, dev),
                views(queue@) == listing_queue(ev.subrange(0, i as int), cache, dev),
                forall|j: int| 0 <= j < queue@.len() ==> #[trigger] queue@[j].size >= 0,
                forall|j: int| 0 <= j < queue@.len() ==> is_media_name(#[trigger] queue@[j].filename@),
                forall|j: int| 0 <= j < hits.len() ==> is_media_name(#[trigger] hits[j].filename),
                segs.len() == hits.len(),
                forall|j: int| 0 <= j < hits.len() ==> #[trigger] segs[j] == seq![skipped(hits[j])],
                forall|j: int| 0 <= j < hits.len() ==> cache.contains(key_of(#[trigger] hits[j], dev)),
                segs.flatten() == skip_events(hits),
                events_view(events@) == skip_events(hits),
            decreases entries@.len() - i,
        {
            let e = &entries[i];
            let ghost fv = e@;
            assert(ev.subrange(0, i + 1) =~= ev.subrange(0, i as int).push(fv));
            proof {
                Seq::lemma_filter_push(
                    ev.subrange(0, i as int),
                    fv,
                    |f: FileView| is_hit(f, cache, dev),
                );
                Seq::lemma_filter_push(
                    ev.subrange(0, i as int),
                    fv,
                    |f: FileView| is_queued(f, cache, dev),
                );
            }
            if has_media_extension(e.filename.as_str()) {
                if self.cache.contains(e.filename.as_str(), e.size, self.device_id.as_str()) {
                    let ghost before = events_view(events@);
                    events.push(UploadEvent::FileSkipped { filename: e.filename.clone() });
                    assert(events_view(events@) =~= before.push(skipped(fv)));
                    proof {
                        Seq::lemma_flatten_push(segs, seq![skipped(fv)]);
                        assert(hits.push(fv).map_values(|f: FileView| skipped(f)) =~= skip_events(
                            hits,
                        ).push(skipped(fv)));
                        segs = segs.push(seq![skipped(fv)]);
                        hits = hits.push(fv);
                    }
                    assert(segs.flatten() =~= skip_events(hits));
                } else {
                    let ghost before = views(queue@);
                    queue.push(e.duplicate());
                    assert(views(queue@) =~= before.push(fv));
                }
            }
            i = i + 1;
        }
        assert(ev.subrange(0, entries@.len() as int) =~= ev);
        let ghost old_log = self.log();
        assert(old_log =~= self.head());
        self.hits = Ghost(hits);
        self.segs = Ghost(segs);
        self.queue = queue;
        self.current = 0;
        if self.queue.len() > 0 {
            let f = &self.queue[0];
            let ghost before = events_view(events@);
            events.push(UploadEvent::FileStarted { filename: f.filename.clone(), total_bytes: f.size });
            assert(events_view(events@) =~= before + seq![started(f@)]);
            self.phase = Phase::Negotiating;
            self.cur = Ghost(upload_segment(f@, self.parts as int, 0));
            assert(self.cur@ =~= seq![started(f@)]);
        } else {
            self.phase = Phase::Done;
            assert(events_view(events@) =~= skip_events(hits) + Seq::<EventView>::empty());
        }
        proof {
            let h = self.hits@.len();
            assert forall|i: int|
                0 <= i < self.segs@.len() && ends_skipped(#[trigger] self.segs@[i])
                    implies self.cache@.contains(key_of(self.files()[i], self.device_id@)) by {
                assert(self.files()[i] == hits[i]);
            }
            assert(self.files() =~= hits + views(self.queue@));
            assert(self.log() =~= old(self).log() + events_view(events@));
        }
        Step { events, record: None }
    }
}

/// The events of a file being uploaded, closed by a terminal event, form a
/// complete lifecycle.
proof fn lemma_upload_segment_complete(f: FileView, parts: int, n: int, t: EventView)
    requires
        f.size >= 0,
        n >= 0,
        is_terminal_for(t, f.filename),
    ensures
        lifecycle_complete(upload_segment(f, parts, n).push(t), f),
{
    let seg = upload_segment(f, parts, n).push(t);
    assert(seg.len() == n + 2);
    assert(seg[0] == started(f));
    assert(seg.last() == t);
    assert forall|k: int| 0 < k < seg.len() - 1 implies is_progress_for(#[trigger] seg[k], f) by {
        assert(seg[k] == progress_prefix(f, parts, n)[k - 1]);
    }
    assert forall|a: int, b: int| 0 < a <= b < seg.len() - 1 implies progress_bytes(
        #[trigger] seg[a],
    ) <= progress_bytes(#[trigger] seg[b]) by {
        assert(seg[a] == progress_prefix(f, parts, n)[a - 1]);
        assert(seg[b] == progress_prefix(f, parts, n)[b - 1]);
        lemma_chunk_ends_monotonic(f.size as int, parts, a - 1, b - 1);
    }
}

/// Whether an event ends a file's events.
pub open spec fn is_terminal(e: EventView) -> bool {
    e is FileSkipped || e is FileCompleted || e is FileFailed
}

/// In a finished run the reported events are `CameraFound` (when a camera
/// was found) followed by one segment per candidate file, in order. Each
/// segment holds exactly one terminal event (`FileCompleted`, `FileSkipped`
/// or `FileFailed`), at its end, and the progress events before it carry
/// non-decreasing byte counts.
pub proof fn lemma_one_terminal_event_per_file(run: &SyncRun)
    requires
        run.wf(),
        run.phase_view() == PhaseView::Done,
    ensures
        run.log() == run.head() + run.segments().flatten(),
        run.segments().len() == run.files().len(),
        forall|i: int|
            0 <= i < run.files().len() ==> lifecycle_complete(
                #[trigger] run.segments()[i],
                run.files()[i],
            ),
        forall|i: int|
            0 <= i < run.files().len() ==> is_terminal(#[trigger] run.segments()[i].last()),
        forall|i: int, k: int|
            0 <= i < run.files().len() && 0 <= k < run.segments()[i].len() - 1 ==> !is_terminal(
                #[trigger] run.segments()[i][k],
            ),
{
    let h = run.hits@.len();
    assert(run.log() =~= run.head() + run.segments().flatten());
    assert forall|i: int| 0 <= i < run.files().len() implies lifecycle_complete(
        #[trigger] run.segments()[i],
        run.files()[i],
    ) by {
        if i >= h {
            let j = i - h;
            assert(run.segs@[h + j] == run.segs@[i]);
        }
    }
    assert forall|i: int, k: int|
        0 <= i < run.files().len() && 0 <= k < run.segments()[i].len() - 1 implies !is_terminal(
        #[trigger] run.segments()[i][k],
    ) by {
        let seg = run.segments()[i];
        assert(lifecycle_complete(seg, run.files()[i]));
        if k > 0 {
            assert(is_progress_for(seg[k], run.files()[i]));
        }
    }
}

/// A file that a finished run reported skipped, from the cache or because
/// the server already had it, has its record in the run's skip cache. A run
/// that starts from that cache on the same device and lists a file with the
/// same name and size reports it skipped from the cache and never queues it,
/// so no negotiation or chunk request is made for it.
pub proof fn lemma_skipped_file_stays_skipped(run: &SyncRun, i: int, entries: Seq<FileView>)
    requires
        run.wf(),
        run.phase_view() == PhaseView::Done,
        0 <= i < run.files().len(),
        ends_skipped(run.segments()[i]),
    ensures
        run.cache_view().contains(key_of(run.files()[i], run.device())),
        forall|f: FileView|
            #![trigger entries.contains(f)]
            entries.contains(f) && f.filename == run.files()[i].filename && f.size
                == run.files()[i].size ==> listing_hits(
                entries,
                run.cache_view(),
                run.device(),
            ).contains(f) && !listing_queue(entries, run.cache_view(), run.device()).contains(f),
{
    let h = run.hits@.len();
    let g = run.files()[i];
    let cache = run.cache_view();
    let dev = run.device();
    assert(is_media_name(g.filename)) by {
        if i >= h {
            assert(run.queue@[i - h].filename@ == g.filename);
        }
    }
    assert forall|f: FileView|
        #![trigger entries.contains(f)]
        entries.contains(f) && f.filename == g.filename && f.size == g.size implies listing_hits(
            entries,
            cache,
            dev,
        ).contains(f) && !listing_queue(entries, cache, dev).contains(f) by {
        let idx = choose|idx: int| 0 <= idx < entries.len() && entries[idx] == f;
        assert(key_of(f, dev) == key_of(g, dev));
        Seq::lemma_filter_contains(entries, |x: FileView| is_hit(x, cache, dev), idx);
        if listing_queue(entries, cache, dev).contains(f) {
            let q = listing_queue(entries, cache, dev);
            let qi = choose|qi: int| 0 <= qi < q.len() && q[qi] == f;
            Seq::lemma_filter_pred(entries, |x: FileView| is_queued(x, cache, dev), qi);
        }
    }
}

} // verus!
