//! Downloading one track of a lesson: what is done on each event, and what is reported.

use vstd::prelude::*;

use crate::api::{VideoSession, VideoTrack};
use crate::endpoints;
use crate::failures;
use crate::failures::Failure;
use crate::http;
use crate::naming;
use crate::progress;
use crate::progress::{DownloadProgress, DownloadRequest};
use crate::text;

verus! {

/// What the download of a track waits for.
#[derive(Clone, Copy, Debug, PartialEq, Eq, Structural)]
pub enum TrackPhase {
    /// To be started.
    Idle,
    /// Whether the file is there already.
    CheckingFile,
    /// How much of the file an earlier download has left.
    MeasuringPart,
    /// The answer of the official address.
    RequestingOfficial,
    /// The answer of the address that the track names.
    RequestingFallback,
    /// The file that is written to.
    OpeningPart,
    /// The next chunk.
    ReadingChunk,
    /// The chunk to be written.
    WritingChunk,
    /// What was written to reach the file.
    Flushing,
    /// The file to get its name.
    Renaming,
    /// Nothing more: the file is there.
    Done,
    /// Nothing more: the download failed.
    Failed,
}

/// The download of a track: what it waits for, what names it in reports and requests, and how far
/// it has come.
#[derive(Debug)]
pub struct TrackDownload {
    pub phase: TrackPhase,
    pub task_id: String,
    pub lesson_id: String,
    pub file_name: String,
    pub track_id: String,
    pub fallback_url: String,
    pub token: String,
    /// What an earlier download has left, in bytes.
    pub existing: u64,
    /// Whether what comes is appended to that.
    pub resumed: bool,
    /// What the file holds, in bytes.
    pub downloaded: u64,
    /// What the file will hold in the end, in bytes.
    pub total: Option<u64>,
    /// The length of the chunk that is being written.
    pub pending: u64,
}

/// What a [`TrackDownload`] holds.
pub struct TrackView {
    pub phase: TrackPhase,
    pub task_id: Seq<char>,
    pub lesson_id: Seq<char>,
    pub file_name: Seq<char>,
    pub track_id: Seq<char>,
    pub fallback_url: Seq<char>,
    pub token: Seq<char>,
    pub existing: u64,
    pub resumed: bool,
    pub downloaded: u64,
    pub total: Option<u64>,
    pub pending: u64,
}

impl View for TrackDownload {
    type V = TrackView;

    open spec fn view(&self) -> TrackView {
        TrackView {
            phase: self.phase,
            task_id: self.task_id@,
            lesson_id: self.lesson_id@,
            file_name: self.file_name@,
            track_id: self.track_id@,
            fallback_url: self.fallback_url@,
            token: self.token@,
            existing: self.existing,
            resumed: self.resumed,
            downloaded: self.downloaded,
            total: self.total,
            pending: self.pending,
        }
    }
}

/// What happens to the download of a track.
#[derive(Debug)]
pub enum TrackEvent {
    Begin,
    FileFound(Option<u64>),
    FileMissing,
    PartMeasured(Option<u64>),
    OfficialAnswered { status: u16, length: Option<u64> },
    OfficialFailed(String),
    FallbackAnswered { status: u16, length: Option<u64> },
    FallbackFailed(String),
    PartOpened,
    PartNotOpened(String),
    ChunkRead(u64),
    ChunkNotRead(String),
    ChunksEnded,
    ChunkWritten,
    ChunkNotWritten(String),
    Flushed,
    NotFlushed(String),
    Renamed,
    NotRenamed(String),
}

/// What a [`TrackEvent`] holds.
pub enum TrackEventView {
    Begin,
    FileFound(Option<u64>),
    FileMissing,
    PartMeasured(Option<u64>),
    OfficialAnswered { status: u16, length: Option<u64> },
    OfficialFailed(Seq<char>),
    FallbackAnswered { status: u16, length: Option<u64> },
    FallbackFailed(Seq<char>),
    PartOpened,
    PartNotOpened(Seq<char>),
    ChunkRead(u64),
    ChunkNotRead(Seq<char>),
    ChunksEnded,
    ChunkWritten,
    ChunkNotWritten(Seq<char>),
    Flushed,
    NotFlushed(Seq<char>),
    Renamed,
    NotRenamed(Seq<char>),
}

impl View for TrackEvent {
    type V = TrackEventView;

    open spec fn view(&self) -> TrackEventView {
        match self {
            TrackEvent::Begin => TrackEventView::Begin,
            TrackEvent::FileFound(size) => TrackEventView::FileFound(*size),
            TrackEvent::FileMissing => TrackEventView::FileMissing,
            TrackEvent::PartMeasured(size) => TrackEventView::PartMeasured(*size),
            TrackEvent::OfficialAnswered { status, length } => TrackEventView::OfficialAnswered {
                status: *status,
                length: *length,
            },
            TrackEvent::OfficialFailed(cause) => TrackEventView::OfficialFailed(cause@),
            TrackEvent::FallbackAnswered { status, length } => TrackEventView::FallbackAnswered {
                status: *status,
                length: *length,
            },
            TrackEvent::FallbackFailed(cause) => TrackEventView::FallbackFailed(cause@),
            TrackEvent::PartOpened => TrackEventView::PartOpened,
            TrackEvent::PartNotOpened(cause) => TrackEventView::PartNotOpened(cause@),
            TrackEvent::ChunkRead(length) => TrackEventView::ChunkRead(*length),
            TrackEvent::ChunkNotRead(cause) => TrackEventView::ChunkNotRead(cause@),
            TrackEvent::ChunksEnded => TrackEventView::ChunksEnded,
            TrackEvent::ChunkWritten => TrackEventView::ChunkWritten,
            TrackEvent::ChunkNotWritten(cause) => TrackEventView::ChunkNotWritten(cause@),
            TrackEvent::Flushed => TrackEventView::Flushed,
            TrackEvent::NotFlushed(cause) => TrackEventView::NotFlushed(cause@),
            TrackEvent::Renamed => TrackEventView::Renamed,
            TrackEvent::NotRenamed(cause) => TrackEventView::NotRenamed(cause@),
        }
    }
}

/// What is to be done next for the download of a track.
#[derive(Debug)]
pub enum TrackAction {
    CheckFile { file_name: String },
    MeasurePart { file_name: String },
    RequestOfficial { url: String, token: String, range: Option<String> },
    RequestFallback { url: String },
    OpenPart { file_name: String, append: bool },
    ReadChunk,
    WriteChunk,
    Flush,
    Rename { from: String, to: String },
    Nothing,
    Succeed,
    Fail(String),
}

/// What a [`TrackAction`] holds.
pub enum TrackActionView {
    CheckFile { file_name: Seq<char> },
    MeasurePart { file_name: Seq<char> },
    RequestOfficial { url: Seq<char>, token: Seq<char>, range: Option<Seq<char>> },
    RequestFallback { url: Seq<char> },
    OpenPart { file_name: Seq<char>, append: bool },
    ReadChunk,
    WriteChunk,
    Flush,
    Rename { from: Seq<char>, to: Seq<char> },
    Nothing,
    Succeed,
    Fail(Seq<char>),
}

impl View for TrackAction {
    type V = TrackActionView;

    open spec fn view(&self) -> TrackActionView {
        match self {
            TrackAction::CheckFile { file_name } => TrackActionView::CheckFile {
                file_name: file_name@,
            },
            TrackAction::MeasurePart { file_name } => TrackActionView::MeasurePart {
                file_name: file_name@,
            },
            TrackAction::RequestOfficial { url, token, range } => {
                TrackActionView::RequestOfficial {
                    url: url@,
                    token: token@,
                    range: text::option_view(*range),
                }
            },
            TrackAction::RequestFallback { url } => TrackActionView::RequestFallback { url: url@ },
            TrackAction::OpenPart { file_name, append } => TrackActionView::OpenPart {
                file_name: file_name@,
                append: *append,
            },
            TrackAction::ReadChunk => TrackActionView::ReadChunk,
            TrackAction::WriteChunk => TrackActionView::WriteChunk,
            TrackAction::Flush => TrackActionView::Flush,
            TrackAction::Rename { from, to } => TrackActionView::Rename { from: from@, to: to@ },
            TrackAction::Nothing => TrackActionView::Nothing,
            TrackAction::Succeed => TrackActionView::Succeed,
            TrackAction::Fail(message) => TrackActionView::Fail(message@),
        }
    }
}

/// What comes of an event: what is reported, and what is to be done next.
#[derive(Debug)]
pub struct TrackStep {
    pub report: Option<DownloadProgress>,
    pub action: TrackAction,
}

/// What a [`TrackStep`] holds.
pub struct TrackStepView {
    pub report: Option<progress::ProgressView>,
    pub action: TrackActionView,
}

impl View for TrackStep {
    type V = TrackStepView;

    open spec fn view(&self) -> TrackStepView {
        TrackStepView { report: progress::report_view(self.report), action: self.action@ }
    }
}

/// What the official address names a track by: the lesson where the lesson has this track alone,
/// and otherwise the track.
pub open spec fn official_id(request: DownloadRequest, track: VideoTrack, single: bool) -> Seq<
    char,
> {
    if single {
        request.lesson_id@
    } else {
        track.id@
    }
}

/// The file that a track is saved under, which has a name of its own where the lesson has several
/// tracks.
pub open spec fn track_file(
    request: DownloadRequest,
    track: VideoTrack,
    single: bool,
    earlier: nat,
) -> Seq<char> {
    if single {
        naming::single_video_name(request.lesson_title@, request.begin_time@, track.cdvi_view_num)
    } else {
        naming::numbered_video_name(
            request.lesson_title@,
            request.begin_time@,
            track.cdvi_view_num,
            earlier,
        )
    }
}

/// The download of a track that is to be started, where `single` says whether the lesson has this
/// track alone and `earlier` how many tracks before it carry the same signal.
pub open spec fn fresh_track(
    session: VideoSession,
    request: DownloadRequest,
    track: VideoTrack,
    single: bool,
    earlier: nat,
    task_id: Seq<char>,
) -> TrackView {
    TrackView {
        phase: TrackPhase::Idle,
        task_id,
        lesson_id: request.lesson_id@,
        file_name: track_file(request, track, single, earlier),
        track_id: official_id(request, track, single),
        fallback_url: track.rtmp_url_hdv@,
        token: session.token@,
        existing: 0,
        resumed: false,
        downloaded: 0,
        total: None,
        pending: 0,
    }
}

/// The download in another phase.
pub open spec fn in_phase(state: TrackView, phase: TrackPhase) -> TrackView {
    TrackView { phase, ..state }
}

/// A step that reports nothing.
pub open spec fn quiet(action: TrackActionView) -> TrackStepView {
    TrackStepView { report: None, action }
}

/// A report of the download.
pub open spec fn track_report(
    state: TrackView,
    stage: Seq<char>,
    downloaded: u64,
    total: Option<u64>,
    message: Seq<char>,
) -> progress::ProgressView {
    progress::ProgressView {
        task_id: state.task_id,
        lesson_id: state.lesson_id,
        file_name: state.file_name,
        stage,
        downloaded,
        total,
        message,
    }
}

/// The download goes on in another phase, without a report.
pub open spec fn going_on(state: TrackView, phase: TrackPhase, action: TrackActionView) -> (
    TrackView,
    TrackStepView,
) {
    (in_phase(state, phase), quiet(action))
}

/// The download fails.
pub open spec fn failed_with(state: TrackView, message: Seq<char>) -> (TrackView, TrackStepView) {
    going_on(state, TrackPhase::Failed, TrackActionView::Fail(message))
}

/// A size that counts as none where it is not known.
pub open spec fn known_size(size: Option<u64>) -> u64 {
    match size {
        Some(n) => n,
        None => 0,
    }
}

/// Whether an answer continues what an earlier download has left.
pub open spec fn continues(existing: u64, status: u16) -> bool {
    status == http::PARTIAL_CONTENT && existing > 0
}

/// What the file holds before anything is written.
pub open spec fn base_size(existing: u64, status: u16) -> u64 {
    if continues(existing, status) {
        existing
    } else {
        0
    }
}

/// An answer that brings the video.
pub open spec fn on_video(state: TrackView, status: u16, length: Option<u64>) -> (
    TrackView,
    TrackStepView,
) {
    let base = base_size(state.existing, status);
    (
        TrackView {
            phase: TrackPhase::OpeningPart,
            resumed: continues(state.existing, status),
            downloaded: base,
            total: match length {
                Some(n) => Some((n + base) as u64),
                None => None,
            },
            ..state
        },
        quiet(
            TrackActionView::OpenPart {
                file_name: naming::partial_name(state.file_name),
                append: continues(state.existing, status),
            },
        ),
    )
}

/// What happens before the file is written to.
pub open spec fn on_request(state: TrackView, event: TrackEventView) -> (TrackView, TrackStepView) {
    match (state.phase, event) {
        (TrackPhase::Idle, TrackEventView::Begin) => going_on(
            state,
            TrackPhase::CheckingFile,
            TrackActionView::CheckFile { file_name: state.file_name },
        ),
        (TrackPhase::CheckingFile, TrackEventView::FileFound(size)) => (
            in_phase(state, TrackPhase::Done),
            TrackStepView {
                report: Some(
                    track_report(state, "completed"@, known_size(size), size, "文件已存在"@),
                ),
                action: TrackActionView::Succeed,
            },
        ),
        (TrackPhase::CheckingFile, TrackEventView::FileMissing) => going_on(
            state,
            TrackPhase::MeasuringPart,
            TrackActionView::MeasurePart { file_name: naming::partial_name(state.file_name) },
        ),
        (TrackPhase::MeasuringPart, TrackEventView::PartMeasured(size)) => (
            TrackView {
                phase: TrackPhase::RequestingOfficial,
                existing: known_size(size),
                ..state
            },
            quiet(
                TrackActionView::RequestOfficial {
                    url: endpoints::official_download(state.track_id),
                    token: state.token,
                    range: if known_size(size) > 0 {
                        Some(endpoints::range_from(known_size(size) as nat))
                    } else {
                        None
                    },
                },
            ),
        ),
        (TrackPhase::RequestingOfficial, TrackEventView::OfficialFailed(cause)) => failed_with(
            state,
            failures::failure_message(Failure::RequestDownload, cause),
        ),
        (TrackPhase::RequestingOfficial, TrackEventView::OfficialAnswered { status, length }) => {
            if http::is_success(status) {
                on_video(state, status, length)
            } else {
                going_on(
                    state,
                    TrackPhase::RequestingFallback,
                    TrackActionView::RequestFallback { url: state.fallback_url },
                )
            }
        },
        (TrackPhase::RequestingFallback, TrackEventView::FallbackFailed(cause)) => failed_with(
            state,
            failures::failure_message(Failure::RequestFallback, cause),
        ),
        (TrackPhase::RequestingFallback, TrackEventView::FallbackAnswered { status, length }) => {
            match http::video_result(status, http::status_text(status)) {
                Ok(_) => on_video(state, status, length),
                Err(message) => failed_with(state, message),
            }
        },
        _ => (state, quiet(TrackActionView::Nothing)),
    }
}

/// What happens while the file is written.
pub open spec fn on_file(state: TrackView, event: TrackEventView) -> (TrackView, TrackStepView) {
    match (state.phase, event) {
        (TrackPhase::OpeningPart, TrackEventView::PartNotOpened(cause)) => failed_with(
            state,
            failures::failure_message(Failure::CreateFile, cause),
        ),
        (TrackPhase::OpeningPart, TrackEventView::PartOpened) => going_on(
            state,
            TrackPhase::ReadingChunk,
            TrackActionView::ReadChunk,
        ),
        (TrackPhase::ReadingChunk, TrackEventView::ChunkNotRead(cause)) => failed_with(
            state,
            failures::failure_message(Failure::DownloadBroken, cause),
        ),
        (TrackPhase::ReadingChunk, TrackEventView::ChunkRead(length)) => (
            TrackView { phase: TrackPhase::WritingChunk, pending: length, ..state },
            quiet(TrackActionView::WriteChunk),
        ),
        (TrackPhase::ReadingChunk, TrackEventView::ChunksEnded) => going_on(
            state,
            TrackPhase::Flushing,
            TrackActionView::Flush,
        ),
        (TrackPhase::WritingChunk, TrackEventView::ChunkNotWritten(cause)) => failed_with(
            state,
            failures::failure_message(Failure::WriteFile, cause),
        ),
        (TrackPhase::WritingChunk, TrackEventView::ChunkWritten) => {
            let downloaded = (state.downloaded + state.pending) as u64;
            (
                TrackView { phase: TrackPhase::ReadingChunk, downloaded, pending: 0, ..state },
                TrackStepView {
                    report: Some(
                        track_report(
                            state,
                            "downloading"@,
                            downloaded,
                            state.total,
                            "正在下载"@,
                        ),
                    ),
                    action: TrackActionView::ReadChunk,
                },
            )
        },
        (TrackPhase::Flushing, TrackEventView::NotFlushed(cause)) => failed_with(state, cause),
        (TrackPhase::Flushing, TrackEventView::Flushed) => going_on(
            state,
            TrackPhase::Renaming,
            TrackActionView::Rename {
                from: naming::partial_name(state.file_name),
                to: state.file_name,
            },
        ),
        (TrackPhase::Renaming, TrackEventView::NotRenamed(cause)) => failed_with(
            state,
            failures::failure_message(Failure::FinishFile, cause),
        ),
        (TrackPhase::Renaming, TrackEventView::Renamed) => (
            in_phase(state, TrackPhase::Done),
            TrackStepView {
                report: Some(
                    track_report(
                        state,
                        "completed"@,
                        state.downloaded,
                        Some(state.downloaded),
                        "视频下载完成"@,
                    ),
                ),
                action: TrackActionView::Succeed,
            },
        ),
        _ => (state, quiet(TrackActionView::Nothing)),
    }
}

/// The phases before the file is written to.
pub open spec fn is_requesting(phase: TrackPhase) -> bool {
    phase is Idle || phase is CheckingFile || phase is MeasuringPart || phase is RequestingOfficial
        || phase is RequestingFallback
}

/// What an event does to the download of a track.
pub open spec fn track_step(state: TrackView, event: TrackEventView) -> (TrackView, TrackStepView) {
    if is_requesting(state.phase) {
        on_request(state, event)
    } else {
        on_file(state, event)
    }
}

/// Whether an answer announces a file whose size can be counted.
pub open spec fn answer_fits(existing: u64, status: u16, length: Option<u64>) -> bool {
    length matches Some(n) ==> n + base_size(existing, status) <= u64::MAX
}

/// Whether the sizes that an event brings can be counted.
pub open spec fn sizes_fit(state: TrackView, event: TrackEventView) -> bool {
    match event {
        TrackEventView::OfficialAnswered { status, length } => answer_fits(
            state.existing,
            status,
            length,
        ),
        TrackEventView::FallbackAnswered { status, length } => answer_fits(
            state.existing,
            status,
            length,
        ),
        TrackEventView::ChunkWritten => state.downloaded + state.pending <= u64::MAX,
        _ => true,
    }
}

fn quietly(action: TrackAction) -> (r: TrackStep)
    ensures
        r@ == quiet(action@),
{
    TrackStep { report: None, action }
}

fn size_or_zero(size: Option<u64>) -> (r: u64)
    ensures
        r == known_size(size),
{
    match size {
        Some(n) => n,
        None => 0,
    }
}

fn size_before(existing: u64, status: u16) -> (r: u64)
    ensures
        r == base_size(existing, status),
{
    if status == http::PARTIAL_CONTENT && existing > 0 {
        existing
    } else {
        0
    }
}

fn answer_is_countable(existing: u64, status: u16, length: Option<u64>) -> (r: bool)
    ensures
        r == answer_fits(existing, status, length),
{
    match length {
        Some(n) => n <= u64::MAX - size_before(existing, status),
        None => true,
    }
}

impl TrackDownload {
    /// The download of a track that is to be started, where `single` says whether the lesson has
    /// this track alone and `earlier` how many tracks before it carry the same signal.
    pub fn new(
        session: &VideoSession,
        request: &DownloadRequest,
        track: &VideoTrack,
        single: bool,
        earlier: u64,
        task_id: &str,
    ) -> (r: TrackDownload)
        requires
            earlier < u64::MAX,
        ensures
            r@ == fresh_track(*session, *request, *track, single, earlier as nat, task_id@),
    {
        let file_name = if single {
            naming::single_video_file_name(
                request.lesson_title.as_str(),
                request.begin_time.as_str(),
                track.cdvi_view_num,
            )
        } else {
            naming::numbered_video_file_name(
                request.lesson_title.as_str(),
                request.begin_time.as_str(),
                track.cdvi_view_num,
                earlier,
            )
        };
        let track_id = if single {
            request.lesson_id.clone()
        } else {
            track.id.clone()
        };
        TrackDownload {
            phase: TrackPhase::Idle,
            task_id: task_id.to_owned(),
            lesson_id: request.lesson_id.clone(),
            file_name,
            track_id,
            fallback_url: track.rtmp_url_hdv.clone(),
            token: session.token.clone(),
            existing: 0,
            resumed: false,
            downloaded: 0,
            total: None,
            pending: 0,
        }
    }

    /// Whether the sizes that an event brings can be counted.
    pub fn can_count(&self, event: &TrackEvent) -> (r: bool)
        ensures
            r == sizes_fit(self@, event@),
    {
        match event {
            TrackEvent::OfficialAnswered { status, length } => answer_is_countable(
                self.existing,
                *status,
                *length,
            ),
            TrackEvent::FallbackAnswered { status, length } => answer_is_countable(
                self.existing,
                *status,
                *length,
            ),
            TrackEvent::ChunkWritten => self.pending <= u64::MAX - self.downloaded,
            _ => true,
        }
    }

    fn report(
        &self,
        stage: &'static str,
        downloaded: u64,
        total: Option<u64>,
        message: &str,
    ) -> (r: DownloadProgress)
        ensures
            r@ == track_report(self@, stage@, downloaded, total, message@),
    {
        DownloadProgress {
            task_id: self.task_id.clone(),
            lesson_id: self.lesson_id.clone(),
            file_name: self.file_name.clone(),
            stage,
            downloaded,
            total,
            message: message.to_owned(),
        }
    }

    fn go_on(&mut self, phase: TrackPhase, action: TrackAction) -> (r: TrackStep)
        ensures
            (final(self)@, r@) == going_on(old(self)@, phase, action@),
    {
        self.phase = phase;
        quietly(action)
    }

    fn fail_for(&mut self, failure: Failure, cause: &str) -> (r: TrackStep)
        ensures
            (final(self)@, r@) == failed_with(
                old(self)@,
                failures::failure_message(failure, cause@),
            ),
    {
        let message = failure.message(cause);
        self.go_on(TrackPhase::Failed, TrackAction::Fail(message))
    }

    fn take_video(&mut self, status: u16, length: Option<u64>) -> (r: TrackStep)
        requires
            answer_fits(old(self).existing, status, length),
        ensures
            (final(self)@, r@) == on_video(old(self)@, status, length),
    {
        let base = size_before(self.existing, status);
        let append = status == http::PARTIAL_CONTENT && self.existing > 0;
        self.resumed = append;
        self.downloaded = base;
        self.total = match length {
            Some(n) => Some(n + base),
            None => None,
        };
        let file_name = naming::partial_file_name(self.file_name.as_str());
        self.go_on(TrackPhase::OpeningPart, TrackAction::OpenPart { file_name, append })
    }

    fn step_request(&mut self, event: TrackEvent) -> (r: TrackStep)
        requires
            sizes_fit(old(self)@, event@),
        ensures
            (final(self)@, r@) == on_request(old(self)@, event@),
    {
        match (self.phase, event) {
            (TrackPhase::Idle, TrackEvent::Begin) => {
                let file_name = self.file_name.clone();
                self.go_on(TrackPhase::CheckingFile, TrackAction::CheckFile { file_name })
            },
            (TrackPhase::CheckingFile, TrackEvent::FileFound(size)) => {
                let report = self.report("completed", size_or_zero(size), size, "文件已存在");
                self.phase = TrackPhase::Done;
                TrackStep { report: Some(report), action: TrackAction::Succeed }
            },
            (TrackPhase::CheckingFile, TrackEvent::FileMissing) => {
                let file_name = naming::partial_file_name(self.file_name.as_str());
                self.go_on(TrackPhase::MeasuringPart, TrackAction::MeasurePart { file_name })
            },
            (TrackPhase::MeasuringPart, TrackEvent::PartMeasured(size)) => {
                let existing = size_or_zero(size);
                self.existing = existing;
                let url = endpoints::official_download_url(self.track_id.as_str());
                let token = self.token.clone();
                let range = if existing > 0 {
                    Some(endpoints::range_header(existing))
                } else {
                    None
                };
                self.go_on(
                    TrackPhase::RequestingOfficial,
                    TrackAction::RequestOfficial { url, token, range },
                )
            },
            (TrackPhase::RequestingOfficial, TrackEvent::OfficialFailed(cause)) => self.fail_for(
                Failure::RequestDownload,
                cause.as_str(),
            ),
            (TrackPhase::RequestingOfficial, TrackEvent::OfficialAnswered { status, length }) => {
                if http::status_is_success(status) {
                    self.take_video(status, length)
                } else {
                    let url = self.fallback_url.clone();
                    self.go_on(
                        TrackPhase::RequestingFallback,
                        TrackAction::RequestFallback { url },
                    )
                }
            },
            (TrackPhase::RequestingFallback, TrackEvent::FallbackFailed(cause)) => self.fail_for(
                Failure::RequestFallback,
                cause.as_str(),
            ),
            (TrackPhase::RequestingFallback, TrackEvent::FallbackAnswered { status, length }) => {
                match http::check_video(status) {
                    Ok(_) => self.take_video(status, length),
                    Err(message) => self.go_on(TrackPhase::Failed, TrackAction::Fail(message)),
                }
            },
            _ => quietly(TrackAction::Nothing),
        }
    }

    fn step_file(&mut self, event: TrackEvent) -> (r: TrackStep)
        requires
            sizes_fit(old(self)@, event@),
        ensures
            (final(self)@, r@) == on_file(old(self)@, event@),
    {
        match (self.phase, event) {
            (TrackPhase::OpeningPart, TrackEvent::PartNotOpened(cause)) => self.fail_for(
                Failure::CreateFile,
                cause.as_str(),
            ),
            (TrackPhase::OpeningPart, TrackEvent::PartOpened) => self.go_on(
                TrackPhase::ReadingChunk,
                TrackAction::ReadChunk,
            ),
            (TrackPhase::ReadingChunk, TrackEvent::ChunkNotRead(cause)) => self.fail_for(
                Failure::DownloadBroken,
                cause.as_str(),
            ),
            (TrackPhase::ReadingChunk, TrackEvent::ChunkRead(length)) => {
                self.pending = length;
                self.go_on(TrackPhase::WritingChunk, TrackAction::WriteChunk)
            },
            (TrackPhase::ReadingChunk, TrackEvent::ChunksEnded) => self.go_on(
                TrackPhase::Flushing,
                TrackAction::Flush,
            ),
            (TrackPhase::WritingChunk, TrackEvent::ChunkNotWritten(cause)) => self.fail_for(
                Failure::WriteFile,
                cause.as_str(),
            ),
            (TrackPhase::WritingChunk, TrackEvent::ChunkWritten) => {
                let downloaded: u64 = self.downloaded + self.pending;
                let report = self.report("downloading", downloaded, self.total, "正在下载");
                self.downloaded = downloaded;
                self.pending = 0;
                self.phase = TrackPhase::ReadingChunk;
                TrackStep { report: Some(report), action: TrackAction::ReadChunk }
            },
            (TrackPhase::Flushing, TrackEvent::NotFlushed(cause)) => self.go_on(
                TrackPhase::Failed,
                TrackAction::Fail(cause),
            ),
            (TrackPhase::Flushing, TrackEvent::Flushed) => {
                let from = naming::partial_file_name(self.file_name.as_str());
                let to = self.file_name.clone();
                self.go_on(TrackPhase::Renaming, TrackAction::Rename { from, to })
            },
            (TrackPhase::Renaming, TrackEvent::NotRenamed(cause)) => self.fail_for(
                Failure::FinishFile,
                cause.as_str(),
            ),
            (TrackPhase::Renaming, TrackEvent::Renamed) => {
                let report = self.report(
                    "completed",
                    self.downloaded,
                    Some(self.downloaded),
                    "视频下载完成",
                );
                self.phase = TrackPhase::Done;
                TrackStep { report: Some(report), action: TrackAction::Succeed }
            },
            _ => quietly(TrackAction::Nothing),
        }
    }

    /// Takes an event: what is reported and what is to be done next. An event that the download
    /// does not wait for changes nothing.
    pub fn step(&mut self, event: TrackEvent) -> (r: TrackStep)
        requires
            sizes_fit(old(self)@, event@),
        ensures
            (final(self)@, r@) == track_step(old(self)@, event@),
    {
        match self.phase {
            TrackPhase::Idle
            | TrackPhase::CheckingFile
            | TrackPhase::MeasuringPart
            | TrackPhase::RequestingOfficial
            | TrackPhase::RequestingFallback => self.step_request(event),
            _ => self.step_file(event),
        }
    }
}

} // verus!
