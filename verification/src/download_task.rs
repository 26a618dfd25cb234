//! Downloading a lesson: what is done on each event, and what is reported.

use vstd::prelude::*;

use crate::api;
use crate::api::{ApiEnvelope, VideoDetail, VideoSession, VideoTrack};
use crate::failures;
use crate::failures::Failure;
use crate::naming;
use crate::progress;
use crate::progress::{DownloadProgress, DownloadRequest};
use crate::subtitles;
use crate::subtitles::SubtitleData;
use crate::text;
use crate::track_download;
use crate::track_download::TrackDownload;

verus! {

/// How many lessons are downloaded at the same time.
pub const DOWNLOAD_SLOTS: usize = 2;

// ---------------------------------------------------------------------------------------------
// The name of a task
// ---------------------------------------------------------------------------------------------

/// A digit of a hexadecimal number in lower case.
pub open spec fn hex_digit(c: char) -> bool {
    '0' <= c <= '9' || 'a' <= c <= 'f'
}

/// A random identifier: 36 characters, hyphens behind the first eight hexadecimal digits and
/// behind each of the next three groups of four, the number of the version and the mark of the
/// variant in their places.
pub open spec fn is_random_id(s: Seq<char>) -> bool {
    &&& s.len() == 36
    &&& s[14] == '4'
    &&& (s[19] == '8' || s[19] == '9' || s[19] == 'a' || s[19] == 'b')
    &&& forall|i: int|
        0 <= i < 36 ==> if i == 8 || i == 13 || i == 18 || i == 23 {
            #[trigger] s[i] == '-'
        } else {
            hex_digit(s[i])
        }
}

/// `uuid`'s `Uuid::new_v4` and its `to_string`: a random identifier of version 4 in its hyphenated
/// form in lower case. Which one it is, nothing says. The call panics where the system has no
/// random bytes to give, which no argument decides.
#[verifier::external_body]
fn new_task_id() -> (r: String)
    ensures
        is_random_id(r@),
{
    uuid::Uuid::new_v4().to_string()
}

// ---------------------------------------------------------------------------------------------
// The tracks that are asked for
// ---------------------------------------------------------------------------------------------

/// Whether one of the signals is the one with the given code.
pub open spec fn wants(signals: Seq<String>, code: i64) -> bool {
    exists|i: int| 0 <= i < signals.len() && #[trigger] signals[i]@ == naming::signal_name(code)
}

/// The tracks that are asked for, in order.
pub open spec fn wanted(signals: Seq<String>, tracks: Seq<VideoTrack>) -> Seq<VideoTrack> {
    tracks.filter(|track: VideoTrack| wants(signals, track.cdvi_view_num))
}

fn is_wanted(signals: &Vec<String>, code: i64) -> (r: bool)
    ensures
        r == wants(signals@, code),
{
    let name = naming::track_name(code);
    let mut i: usize = 0;
    while i < signals.len()
        invariant
            i <= signals@.len(),
            name@ == naming::signal_name(code),
            forall|k: int| 0 <= k < i ==> #[trigger] signals@[k]@ != naming::signal_name(code),
        decreases signals@.len() - i,
    {
        if text::same_text(signals[i].as_str(), name) {
            assert(signals@[i as int]@ == naming::signal_name(code));
            return true;
        }
        i = i + 1;
    }
    false
}

/// The tracks that are asked for, in order.
pub fn wanted_tracks(signals: &Vec<String>, tracks: Vec<VideoTrack>) -> (r: Vec<VideoTrack>)
    ensures
        r@ == wanted(signals@, tracks@),
{
    let ghost all = tracks@;
    let ghost keep = |track: VideoTrack| wants(signals@, track.cdvi_view_num);
    let mut r: Vec<VideoTrack> = Vec::new();
    assert(all.take(0) == Seq::<VideoTrack>::empty());
    reveal_with_fuel(Seq::filter, 1);
    assert(all.take(0).filter(keep) == Seq::<VideoTrack>::empty());
    for track in it: tracks.into_iter()
        invariant
            it.seq() == all,
            keep == (|track: VideoTrack| wants(signals@, track.cdvi_view_num)),
            r@ == all.take(it.index()).filter(keep),
    {
        let ghost i = it.index();
        assert(all.take(i + 1).drop_last() == all.take(i));
        reveal_with_fuel(Seq::filter, 1);
        if is_wanted(signals, track.cdvi_view_num) {
            r.push(track);
        }
    }
    assert(all.take(all.len() as int) == all);
    r
}

/// How many of the first `place` tracks carry the signal with the given code.
pub open spec fn earlier_with(tracks: Seq<VideoTrack>, place: int, code: i64) -> nat
    decreases place,
{
    if place <= 0 {
        0
    } else {
        let before = earlier_with(tracks, place - 1, code);
        if naming::signal_name(tracks[place - 1].cdvi_view_num) == naming::signal_name(code) {
            before + 1
        } else {
            before
        }
    }
}

fn count_earlier(tracks: &Vec<VideoTrack>, place: usize, code: i64) -> (r: u64)
    requires
        place <= tracks@.len(),
    ensures
        r == earlier_with(tracks@, place as int, code),
        r <= place,
{
    let name = naming::track_name(code);
    let mut r: u64 = 0;
    let mut i: usize = 0;
    while i < place
        invariant
            i <= place <= tracks@.len(),
            name@ == naming::signal_name(code),
            r == earlier_with(tracks@, i as int, code),
            r <= i,
        decreases place - i,
    {
        if text::same_text(naming::track_name(tracks[i].cdvi_view_num), name) {
            r = r + 1;
        }
        i = i + 1;
    }
    r
}

// ---------------------------------------------------------------------------------------------
// States, events and steps
// ---------------------------------------------------------------------------------------------

/// What the download of a lesson waits for.
#[derive(Clone, Copy, Debug, PartialEq, Eq, Structural)]
pub enum TaskPhase {
    /// To be started.
    Idle,
    /// A place among the downloads that run at the same time.
    AwaitingSlot,
    /// The directory that the files are saved in.
    CreatingDirectory,
    /// The client that requests are made with.
    BuildingClient,
    /// The tracks of the lesson.
    ReadingDetail,
    /// The download of a track.
    DownloadingTrack,
    /// The subtitles of the lesson.
    ReadingSubtitles,
    /// The SubRip file of the subtitles.
    WritingSubtitles,
    /// The WebVTT file of the subtitles.
    WritingCaptions,
    /// Nothing more.
    Ended,
}

/// A file that is to be written.
#[derive(Debug)]
pub struct TextFile {
    pub file_name: String,
    pub content: String,
}

/// What a [`TextFile`] holds.
pub struct TextFileView {
    pub file_name: Seq<char>,
    pub content: Seq<char>,
}

impl View for TextFile {
    type V = TextFileView;

    open spec fn view(&self) -> TextFileView {
        TextFileView { file_name: self.file_name@, content: self.content@ }
    }
}

/// What an optional file holds.
pub open spec fn file_view(file: Option<TextFile>) -> Option<TextFileView> {
    match file {
        Some(found) => Some(found@),
        None => None,
    }
}

/// The download of a lesson: what it waits for, what was asked for, whether the lesson has one
/// track alone, the tracks that are to be downloaded and the place of the one that is, and the
/// file and the report that follow the first file of subtitles.
#[derive(Debug)]
pub struct DownloadTask {
    pub phase: TaskPhase,
    pub task_id: String,
    pub session: VideoSession,
    pub request: DownloadRequest,
    pub cour_id: String,
    pub single: bool,
    pub tracks: Vec<VideoTrack>,
    pub current: usize,
    pub captions: Option<TextFile>,
    pub closing: Option<DownloadProgress>,
}

/// What a [`DownloadTask`] holds.
pub struct TaskView {
    pub phase: TaskPhase,
    pub task_id: Seq<char>,
    pub session: VideoSession,
    pub request: DownloadRequest,
    pub cour_id: Seq<char>,
    pub single: bool,
    pub tracks: Seq<VideoTrack>,
    pub current: int,
    pub captions: Option<TextFileView>,
    pub closing: Option<progress::ProgressView>,
}

impl View for DownloadTask {
    type V = TaskView;

    open spec fn view(&self) -> TaskView {
        TaskView {
            phase: self.phase,
            task_id: self.task_id@,
            session: self.session,
            request: self.request,
            cour_id: self.cour_id@,
            single: self.single,
            tracks: self.tracks@,
            current: self.current as int,
            captions: file_view(self.captions),
            closing: progress::report_view(self.closing),
        }
    }
}

/// What happens to the download of a lesson.
#[derive(Debug)]
pub enum TaskEvent {
    Begin,
    SlotGranted,
    SlotRefused(String),
    DirectoryCreated,
    DirectoryNotCreated(String),
    ClientBuilt,
    ClientFailed(String),
    DetailAnswered(ApiEnvelope<VideoDetail>),
    DetailNotRequested(String),
    DetailNotUnderstood(String),
    TrackSucceeded,
    TrackFailed(String),
    SubtitlesAnswered(ApiEnvelope<SubtitleData>),
    SubtitlesNotRequested(String),
    SubtitlesNotUnderstood(String),
    SubtitlesWritten,
    SubtitlesNotWritten(String),
}

/// What is to be done next for the download of a lesson.
#[derive(Debug)]
pub enum TaskAction {
    AwaitSlot,
    CreateDirectory { chosen: Option<String> },
    BuildClient,
    RequestDetail { token: String, lesson_id: String },
    DownloadTrack(TrackDownload),
    RequestSubtitles { token: String, course_id: String },
    WriteSubtitles { file_name: String, content: String },
    Nothing,
    End,
}

/// What a [`TaskAction`] holds.
pub enum TaskActionView {
    AwaitSlot,
    CreateDirectory { chosen: Option<Seq<char>> },
    BuildClient,
    RequestDetail { token: Seq<char>, lesson_id: Seq<char> },
    DownloadTrack(track_download::TrackView),
    RequestSubtitles { token: Seq<char>, course_id: Seq<char> },
    WriteSubtitles { file_name: Seq<char>, content: Seq<char> },
    Nothing,
    End,
}

impl View for TaskAction {
    type V = TaskActionView;

    open spec fn view(&self) -> TaskActionView {
        match self {
            TaskAction::AwaitSlot => TaskActionView::AwaitSlot,
            TaskAction::CreateDirectory { chosen } => TaskActionView::CreateDirectory {
                chosen: text::option_view(*chosen),
            },
            TaskAction::BuildClient => TaskActionView::BuildClient,
            TaskAction::RequestDetail { token, lesson_id } => TaskActionView::RequestDetail {
                token: token@,
                lesson_id: lesson_id@,
            },
            TaskAction::DownloadTrack(track) => TaskActionView::DownloadTrack(track@),
            TaskAction::RequestSubtitles { token, course_id } => TaskActionView::RequestSubtitles {
                token: token@,
                course_id: course_id@,
            },
            TaskAction::WriteSubtitles { file_name, content } => TaskActionView::WriteSubtitles {
                file_name: file_name@,
                content: content@,
            },
            TaskAction::Nothing => TaskActionView::Nothing,
            TaskAction::End => TaskActionView::End,
        }
    }
}

/// What comes of an event: what is reported, and what is to be done next.
#[derive(Debug)]
pub struct TaskStep {
    pub report: Option<DownloadProgress>,
    pub action: TaskAction,
}

/// What a [`TaskStep`] holds.
pub struct TaskStepView {
    pub report: Option<progress::ProgressView>,
    pub action: TaskActionView,
}

impl View for TaskStep {
    type V = TaskStepView;

    open spec fn view(&self) -> TaskStepView {
        TaskStepView { report: progress::report_view(self.report), action: self.action@ }
    }
}

/// The download of a lesson that is to be started.
pub open spec fn fresh_task(
    session: VideoSession,
    request: DownloadRequest,
    task_id: Seq<char>,
) -> TaskView {
    TaskView {
        phase: TaskPhase::Idle,
        task_id,
        session,
        request,
        cour_id: Seq::empty(),
        single: false,
        tracks: Seq::empty(),
        current: 0,
        captions: None,
        closing: None,
    }
}

/// The download in another phase.
pub open spec fn in_phase(state: TaskView, phase: TaskPhase) -> TaskView {
    TaskView { phase, ..state }
}

/// A step that reports nothing.
pub open spec fn quiet(action: TaskActionView) -> TaskStepView {
    TaskStepView { report: None, action }
}

/// The download goes on in another phase, without a report.
pub open spec fn going_on(state: TaskView, phase: TaskPhase, action: TaskActionView) -> (
    TaskView,
    TaskStepView,
) {
    (in_phase(state, phase), quiet(action))
}

/// A report about the lesson as a whole.
pub open spec fn lesson_report(
    state: TaskView,
    stage: Seq<char>,
    message: Seq<char>,
) -> progress::ProgressView {
    progress::ProgressView {
        task_id: state.task_id,
        lesson_id: state.request.lesson_id@,
        file_name: state.request.lesson_title@,
        stage,
        downloaded: 0,
        total: None,
        message,
    }
}

/// The end of a download with a report that it failed.
pub open spec fn failed_with(state: TaskView, message: Seq<char>) -> (TaskView, TaskStepView) {
    (
        in_phase(state, TaskPhase::Ended),
        TaskStepView {
            report: Some(lesson_report(state, "failed"@, message)),
            action: TaskActionView::End,
        },
    )
}

/// What follows the last track.
pub open spec fn after_tracks(state: TaskView) -> (TaskView, TaskStepView) {
    if state.request.include_subtitles {
        going_on(
            state,
            TaskPhase::ReadingSubtitles,
            TaskActionView::RequestSubtitles {
                token: state.session.token@,
                course_id: state.cour_id,
            },
        )
    } else {
        going_on(state, TaskPhase::Ended, TaskActionView::End)
    }
}

/// The download of the track at `place`, or what follows the last one.
pub open spec fn at_track(state: TaskView, place: int) -> (TaskView, TaskStepView) {
    let there = TaskView { current: place, ..state };
    if place < state.tracks.len() {
        going_on(
            there,
            TaskPhase::DownloadingTrack,
            TaskActionView::DownloadTrack(
                track_download::fresh_track(
                    state.session,
                    state.request,
                    state.tracks[place],
                    state.single,
                    earlier_with(state.tracks, place, state.tracks[place].cdvi_view_num),
                    state.task_id,
                ),
            ),
        )
    } else {
        after_tracks(there)
    }
}

/// What the tracks of the lesson lead to.
pub open spec fn on_detail(state: TaskView, envelope: ApiEnvelope<VideoDetail>) -> (
    TaskView,
    TaskStepView,
) {
    match envelope.data {
        Some(detail) => at_track(
            TaskView {
                cour_id: detail.cour_id@,
                single: detail.video_play_response_vo_list@.len() == 1,
                tracks: wanted(
                    state.request.signals@,
                    detail.video_play_response_vo_list@,
                ),
                ..state
            },
            0,
        ),
        None => failed_with(
            state,
            api::refusal_text(
                text::option_view(envelope.message),
                envelope.status,
                "读取视频分轨失败"@,
            ),
        ),
    }
}

/// What the subtitles of the lesson lead to. Where the token has expired, the user is asked to log
/// in again; a lesson without subtitles is done.
pub open spec fn on_subtitles(state: TaskView, envelope: ApiEnvelope<SubtitleData>) -> (
    TaskView,
    TaskStepView,
) {
    if envelope.status == Some(api::EXPIRED_STATUS) {
        failed_with(
            state,
            api::refusal_text(
                text::option_view(envelope.message),
                envelope.status,
                "读取字幕失败"@,
            ),
        )
    } else if envelope.data matches Some(found) && found.after_assembly_list@.len() > 0 {
        let plan = subtitles::subtitle_plan(
            state.request,
            state.task_id,
            subtitles::cue_views((envelope.data->0).after_assembly_list@),
        );
        (
            TaskView {
                phase: TaskPhase::WritingSubtitles,
                captions: Some(
                    TextFileView { file_name: plan.caption_name, content: plan.captions },
                ),
                closing: Some(plan.finished),
                ..state
            },
            TaskStepView {
                report: Some(plan.starting),
                action: TaskActionView::WriteSubtitles {
                    file_name: plan.file_name,
                    content: plan.content,
                },
            },
        )
    } else {
        going_on(state, TaskPhase::Ended, TaskActionView::End)
    }
}

/// The end of a download that has written the last file of subtitles.
pub open spec fn closed(state: TaskView) -> (TaskView, TaskStepView) {
    (
        TaskView { phase: TaskPhase::Ended, closing: None, ..state },
        TaskStepView { report: state.closing, action: TaskActionView::End },
    )
}

/// What follows the first file of subtitles: the second one.
pub open spec fn on_first_file(state: TaskView) -> (TaskView, TaskStepView) {
    match state.captions {
        Some(file) => (
            TaskView { phase: TaskPhase::WritingCaptions, captions: None, ..state },
            quiet(
                TaskActionView::WriteSubtitles {
                    file_name: file.file_name,
                    content: file.content,
                },
            ),
        ),
        None => closed(state),
    }
}

/// What happens before the tracks of the lesson are known.
pub open spec fn on_opening(state: TaskView, event: TaskEvent) -> (TaskView, TaskStepView) {
    match (state.phase, event) {
        (TaskPhase::Idle, TaskEvent::Begin) => (
            in_phase(state, TaskPhase::AwaitingSlot),
            TaskStepView {
                report: Some(lesson_report(state, "queued"@, "等待下载位置"@)),
                action: TaskActionView::AwaitSlot,
            },
        ),
        (TaskPhase::AwaitingSlot, TaskEvent::SlotRefused(message)) => failed_with(state, message@),
        (TaskPhase::AwaitingSlot, TaskEvent::SlotGranted) => going_on(
            state,
            TaskPhase::CreatingDirectory,
            TaskActionView::CreateDirectory {
                chosen: text::option_view(state.request.output_dir),
            },
        ),
        (TaskPhase::CreatingDirectory, TaskEvent::DirectoryNotCreated(cause)) => failed_with(
            state,
            failures::failure_message(Failure::CreateDirectory, cause@),
        ),
        (TaskPhase::CreatingDirectory, TaskEvent::DirectoryCreated) => going_on(
            state,
            TaskPhase::BuildingClient,
            TaskActionView::BuildClient,
        ),
        (TaskPhase::BuildingClient, TaskEvent::ClientFailed(message)) => failed_with(
            state,
            message@,
        ),
        (TaskPhase::BuildingClient, TaskEvent::ClientBuilt) => going_on(
            state,
            TaskPhase::ReadingDetail,
            TaskActionView::RequestDetail {
                token: state.session.token@,
                lesson_id: state.request.lesson_id@,
            },
        ),
        (TaskPhase::ReadingDetail, TaskEvent::ClientFailed(message)) => failed_with(
            state,
            message@,
        ),
        (TaskPhase::ReadingDetail, TaskEvent::DetailNotRequested(cause)) => failed_with(
            state,
            failures::failure_message(Failure::ReadTracks, cause@),
        ),
        (TaskPhase::ReadingDetail, TaskEvent::DetailNotUnderstood(cause)) => failed_with(
            state,
            failures::failure_message(Failure::TrackFormat, cause@),
        ),
        (TaskPhase::ReadingDetail, TaskEvent::DetailAnswered(envelope)) => on_detail(
            state,
            envelope,
        ),
        _ => (state, quiet(TaskActionView::Nothing)),
    }
}

/// What happens once the tracks of the lesson are known.
pub open spec fn on_files(state: TaskView, event: TaskEvent) -> (TaskView, TaskStepView) {
    match (state.phase, event) {
        (TaskPhase::DownloadingTrack, TaskEvent::TrackFailed(message)) => failed_with(
            state,
            message@,
        ),
        (TaskPhase::DownloadingTrack, TaskEvent::TrackSucceeded) => at_track(
            state,
            state.current + 1,
        ),
        (TaskPhase::ReadingSubtitles, TaskEvent::SubtitlesNotRequested(cause)) => failed_with(
            state,
            failures::failure_message(Failure::ReadSubtitles, cause@),
        ),
        (TaskPhase::ReadingSubtitles, TaskEvent::SubtitlesNotUnderstood(cause)) => failed_with(
            state,
            failures::failure_message(Failure::SubtitleFormat, cause@),
        ),
        (TaskPhase::ReadingSubtitles, TaskEvent::SubtitlesAnswered(envelope)) => on_subtitles(
            state,
            envelope,
        ),
        (TaskPhase::WritingSubtitles, TaskEvent::SubtitlesNotWritten(cause)) => failed_with(
            state,
            failures::failure_message(Failure::WriteSubtitles, cause@),
        ),
        (TaskPhase::WritingSubtitles, TaskEvent::SubtitlesWritten) => on_first_file(state),
        (TaskPhase::WritingCaptions, TaskEvent::SubtitlesNotWritten(cause)) => failed_with(
            state,
            failures::failure_message(Failure::WriteSubtitles, cause@),
        ),
        (TaskPhase::WritingCaptions, TaskEvent::SubtitlesWritten) => closed(state),
        _ => (state, quiet(TaskActionView::Nothing)),
    }
}

/// The phases before the tracks of the lesson are known.
pub open spec fn is_opening(phase: TaskPhase) -> bool {
    phase is Idle || phase is AwaitingSlot || phase is CreatingDirectory || phase is BuildingClient
        || phase is ReadingDetail
}

/// What an event does to the download of a lesson.
pub open spec fn task_step(state: TaskView, event: TaskEvent) -> (TaskView, TaskStepView) {
    if is_opening(state.phase) {
        on_opening(state, event)
    } else {
        on_files(state, event)
    }
}

/// Whether the place of the track that is being downloaded is the place of a track.
pub open spec fn is_sound(state: TaskView) -> bool {
    state.phase is DownloadingTrack ==> 0 <= state.current < state.tracks.len()
}

fn quietly(action: TaskAction) -> (r: TaskStep)
    ensures
        r@ == quiet(action@),
{
    TaskStep { report: None, action }
}

fn clone_of(s: &Option<String>) -> (r: Option<String>)
    ensures
        text::option_view(r) == text::option_view(*s),
{
    match s {
        Some(found) => Some(found.clone()),
        None => None,
    }
}

/// The download of a lesson, which needs a session of the video service.
pub fn begin_download(session: Option<VideoSession>, request: DownloadRequest) -> (r: Result<
    DownloadTask,
    String,
>)
    ensures
        match r {
            Ok(task) => session is Some && is_random_id(task.task_id@) && task@ == fresh_task(
                session->0,
                request,
                task.task_id@,
            ),
            Err(message) => session is None && message@ == "请先选择课程并读取讲次"@,
        },
{
    match session {
        Some(found) => {
            let task_id = new_task_id();
            Ok(DownloadTask::new(found, request, task_id))
        },
        None => Err("请先选择课程并读取讲次".to_owned()),
    }
}

impl DownloadTask {
    /// The download of a lesson that is to be started.
    pub fn new(session: VideoSession, request: DownloadRequest, task_id: String) -> (r: DownloadTask)
        ensures
            r@ == fresh_task(session, request, task_id@),
            is_sound(r@),
    {
        DownloadTask {
            phase: TaskPhase::Idle,
            task_id,
            session,
            request,
            cour_id: String::new(),
            single: false,
            tracks: Vec::new(),
            current: 0,
            captions: None,
            closing: None,
        }
    }

    fn report(&self, stage: &'static str, message: &str) -> (r: DownloadProgress)
        ensures
            r@ == lesson_report(self@, stage@, message@),
    {
        DownloadProgress {
            task_id: self.task_id.clone(),
            lesson_id: self.request.lesson_id.clone(),
            file_name: self.request.lesson_title.clone(),
            stage,
            downloaded: 0,
            total: None,
            message: message.to_owned(),
        }
    }

    fn go_on(&mut self, phase: TaskPhase, action: TaskAction) -> (r: TaskStep)
        ensures
            (final(self)@, r@) == going_on(old(self)@, phase, action@),
    {
        self.phase = phase;
        quietly(action)
    }

    fn fail_with(&mut self, message: &str) -> (r: TaskStep)
        ensures
            (final(self)@, r@) == failed_with(old(self)@, message@),
    {
        let report = self.report("failed", message);
        self.phase = TaskPhase::Ended;
        TaskStep { report: Some(report), action: TaskAction::End }
    }

    fn fail_for(&mut self, failure: Failure, cause: &str) -> (r: TaskStep)
        ensures
            (final(self)@, r@) == failed_with(
                old(self)@,
                failures::failure_message(failure, cause@),
            ),
    {
        let message = failure.message(cause);
        self.fail_with(message.as_str())
    }

    fn turn_to(&mut self, place: usize) -> (r: TaskStep)
        ensures
            (final(self)@, r@) == at_track(old(self)@, place as int),
    {
        self.current = place;
        if place < self.tracks.len() {
            let earlier = count_earlier(&self.tracks, place, self.tracks[place].cdvi_view_num);
            let track = TrackDownload::new(
                &self.session,
                &self.request,
                &self.tracks[place],
                self.single,
                earlier,
                self.task_id.as_str(),
            );
            self.go_on(TaskPhase::DownloadingTrack, TaskAction::DownloadTrack(track))
        } else if self.request.include_subtitles {
            let token = self.session.token.clone();
            let course_id = self.cour_id.clone();
            self.go_on(
                TaskPhase::ReadingSubtitles,
                TaskAction::RequestSubtitles { token, course_id },
            )
        } else {
            self.go_on(TaskPhase::Ended, TaskAction::End)
        }
    }

    fn take_detail(&mut self, envelope: ApiEnvelope<VideoDetail>) -> (r: TaskStep)
        ensures
            (final(self)@, r@) == on_detail(old(self)@, envelope),
    {
        match api::data_or_error(envelope, "读取视频分轨失败") {
            Ok(detail) => {
                self.cour_id = detail.cour_id;
                self.single = detail.video_play_response_vo_list.len() == 1;
                self.tracks = wanted_tracks(
                    &self.request.signals,
                    detail.video_play_response_vo_list,
                );
                self.turn_to(0)
            },
            Err(message) => self.fail_with(message.as_str()),
        }
    }

    fn take_subtitles(&mut self, envelope: ApiEnvelope<SubtitleData>) -> (r: TaskStep)
        ensures
            (final(self)@, r@) == on_subtitles(old(self)@, envelope),
    {
        if api::is_expired(&envelope) {
            let message = api::refusal(&envelope, "读取字幕失败");
            return self.fail_with(message.as_str());
        }
        match subtitles::plan_subtitles(&self.request, self.task_id.as_str(), envelope.data) {
            Some(plan) => {
                self.phase = TaskPhase::WritingSubtitles;
                self.captions = Some(
                    TextFile { file_name: plan.caption_name, content: plan.captions },
                );
                self.closing = Some(plan.finished);
                TaskStep {
                    report: Some(plan.starting),
                    action: TaskAction::WriteSubtitles {
                        file_name: plan.file_name,
                        content: plan.content,
                    },
                }
            },
            None => self.go_on(TaskPhase::Ended, TaskAction::End),
        }
    }

    fn close(&mut self) -> (r: TaskStep)
        ensures
            (final(self)@, r@) == closed(old(self)@),
    {
        let report = self.closing.take();
        self.phase = TaskPhase::Ended;
        TaskStep { report, action: TaskAction::End }
    }

    fn take_first_file(&mut self) -> (r: TaskStep)
        ensures
            (final(self)@, r@) == on_first_file(old(self)@),
    {
        match self.captions.take() {
            Some(file) => self.go_on(
                TaskPhase::WritingCaptions,
                TaskAction::WriteSubtitles { file_name: file.file_name, content: file.content },
            ),
            None => self.close(),
        }
    }

    fn step_opening(&mut self, event: TaskEvent) -> (r: TaskStep)
        ensures
            (final(self)@, r@) == on_opening(old(self)@, event),
    {
        match (self.phase, event) {
            (TaskPhase::Idle, TaskEvent::Begin) => {
                let report = self.report("queued", "等待下载位置");
                self.phase = TaskPhase::AwaitingSlot;
                TaskStep { report: Some(report), action: TaskAction::AwaitSlot }
            },
            (TaskPhase::AwaitingSlot, TaskEvent::SlotRefused(message)) => self.fail_with(
                message.as_str(),
            ),
            (TaskPhase::AwaitingSlot, TaskEvent::SlotGranted) => {
                let chosen = clone_of(&self.request.output_dir);
                self.go_on(
                    TaskPhase::CreatingDirectory,
                    TaskAction::CreateDirectory { chosen },
                )
            },
            (TaskPhase::CreatingDirectory, TaskEvent::DirectoryNotCreated(cause)) => self.fail_for(
                Failure::CreateDirectory,
                cause.as_str(),
            ),
            (TaskPhase::CreatingDirectory, TaskEvent::DirectoryCreated) => self.go_on(
                TaskPhase::BuildingClient,
                TaskAction::BuildClient,
            ),
            (TaskPhase::BuildingClient, TaskEvent::ClientFailed(message)) => self.fail_with(
                message.as_str(),
            ),
            (TaskPhase::BuildingClient, TaskEvent::ClientBuilt) => {
                let token = self.session.token.clone();
                let lesson_id = self.request.lesson_id.clone();
                self.go_on(
                    TaskPhase::ReadingDetail,
                    TaskAction::RequestDetail { token, lesson_id },
                )
            },
            (TaskPhase::ReadingDetail, TaskEvent::ClientFailed(message)) => self.fail_with(
                message.as_str(),
            ),
            (TaskPhase::ReadingDetail, TaskEvent::DetailNotRequested(cause)) => self.fail_for(
                Failure::ReadTracks,
                cause.as_str(),
            ),
            (TaskPhase::ReadingDetail, TaskEvent::DetailNotUnderstood(cause)) => self.fail_for(
                Failure::TrackFormat,
                cause.as_str(),
            ),
            (TaskPhase::ReadingDetail, TaskEvent::DetailAnswered(envelope)) => self.take_detail(
                envelope,
            ),
            _ => quietly(TaskAction::Nothing),
        }
    }

    fn step_files(&mut self, event: TaskEvent) -> (r: TaskStep)
        requires
            is_sound(old(self)@),
        ensures
            (final(self)@, r@) == on_files(old(self)@, event),
    {
        match (self.phase, event) {
            (TaskPhase::DownloadingTrack, TaskEvent::TrackFailed(message)) => self.fail_with(
                message.as_str(),
            ),
            (TaskPhase::DownloadingTrack, TaskEvent::TrackSucceeded) => {
                assert(self.current < self.tracks.len());
                let place: usize = self.current + 1;
                self.turn_to(place)
            },
            (TaskPhase::ReadingSubtitles, TaskEvent::SubtitlesNotRequested(cause)) => self.fail_for(
                Failure::ReadSubtitles,
                cause.as_str(),
            ),
            (TaskPhase::ReadingSubtitles, TaskEvent::SubtitlesNotUnderstood(cause)) => {
                self.fail_for(Failure::SubtitleFormat, cause.as_str())
            },
            (TaskPhase::ReadingSubtitles, TaskEvent::SubtitlesAnswered(envelope)) => {
                self.take_subtitles(envelope)
            },
            (TaskPhase::WritingSubtitles, TaskEvent::SubtitlesNotWritten(cause)) => self.fail_for(
                Failure::WriteSubtitles,
                cause.as_str(),
            ),
            (TaskPhase::WritingSubtitles, TaskEvent::SubtitlesWritten) => self.take_first_file(),
            (TaskPhase::WritingCaptions, TaskEvent::SubtitlesNotWritten(cause)) => self.fail_for(
                Failure::WriteSubtitles,
                cause.as_str(),
            ),
            (TaskPhase::WritingCaptions, TaskEvent::SubtitlesWritten) => self.close(),
            _ => quietly(TaskAction::Nothing),
        }
    }

    /// Takes an event: what is reported and what is to be done next. An event that the download
    /// does not wait for changes nothing.
    pub fn step(&mut self, event: TaskEvent) -> (r: TaskStep)
        requires
            is_sound(old(self)@),
        ensures
            (final(self)@, r@) == task_step(old(self)@, event),
            is_sound(final(self)@),
    {
        match self.phase {
            TaskPhase::Idle
            | TaskPhase::AwaitingSlot
            | TaskPhase::CreatingDirectory
            | TaskPhase::BuildingClient
            | TaskPhase::ReadingDetail => self.step_opening(event),
            _ => self.step_files(event),
        }
    }
}

} // verus!
