//! What is said of a value holds of everything in it: each field, each case and each item counts.

use vstd::prelude::*;

use crate::api::VideoSession;
use crate::cookies;
use crate::download_task;
use crate::download_task::{
    DownloadTask, TaskAction, TaskActionView, TaskStep, TextFile, TextFileView,
};
use crate::http;
use crate::json;
use crate::lesson_loading;
use crate::lesson_loading::{LessonLoading, LoadAction, LoadActionView};
use crate::lessons;
use crate::lessons::Lesson;
use crate::login_page;
use crate::navigation;
use crate::navigation::{AuthStatus, TokenPoll, TokenPollView, WebUrl};
use crate::progress;
use crate::progress::DownloadProgress;
use crate::qr_login;
use crate::qr_login::{
    QrAction, QrActionView, QrEvent, QrEventView, QrLogin, QrPush, QrPushView, QrStep,
};
use crate::subtitles;
use crate::subtitles::{SubtitleCue, SubtitlePlan};
use crate::text;
use crate::track_download;
use crate::track_download::{
    TrackAction, TrackActionView, TrackDownload, TrackEvent, TrackEventView, TrackStep, TrackView,
};

verus! {

// ---------------------------------------------------------------------------------------------
// Texts, and what may be there or not
// ---------------------------------------------------------------------------------------------

/// A text that may be missing is the text where it is there.
pub proof fn law_texts_are_seen(t: String, error: String, url: WebUrl)
    ensures
        text::option_view(Some(t)) == Some(t@),
        text::option_view(None) is None,
        login_page::text_result(Ok(t)) == Ok::<Seq<char>, Seq<char>>(t@),
        login_page::text_result(Err(error)) == Err::<Seq<char>, Seq<char>>(error@),
        login_page::search_view(Ok(Some(t))) == Ok::<Option<Seq<char>>, Seq<char>>(Some(t@)),
        login_page::search_view(Ok(None)) == Ok::<Option<Seq<char>>, Seq<char>>(None),
        login_page::search_view(Err(error)) == Err::<Option<Seq<char>>, Seq<char>>(error@),
        http::outcome_view(Ok(())) == Ok::<(), Seq<char>>(()),
        http::outcome_view(Err(error)) == Err::<(), Seq<char>>(error@),
        navigation::reading_view(Ok(url)) == Ok::<navigation::WebUrlView, Seq<char>>(url@),
        navigation::reading_view(Err(error)) == Err::<navigation::WebUrlView, Seq<char>>(error@),
{
}

/// Of a list, every item is seen, each in its place.
pub proof fn law_lists_are_seen(
    texts: Seq<String>,
    pairs: Seq<(String, String)>,
    headers: Seq<Option<String>>,
    cues: Seq<SubtitleCue>,
    shown: Seq<Lesson>,
    records: Seq<serde_json::Value>,
    i: int,
)
    ensures
        text::views(texts).len() == texts.len(),
        0 <= i < texts.len() ==> text::views(texts)[i] == texts[i]@,
        text::pair_views(pairs).len() == pairs.len(),
        0 <= i < pairs.len() ==> text::pair_views(pairs)[i] == (pairs[i].0@, pairs[i].1@),
        cookies::header_views(headers).len() == headers.len(),
        0 <= i < headers.len() ==> cookies::header_views(headers)[i] == text::option_view(
            headers[i],
        ),
        subtitles::cue_views(cues).len() == cues.len(),
        0 <= i < cues.len() ==> {
            let cue = subtitles::cue_views(cues)[i];
            cue.bg == cues[i].bg && cue.ed == cues[i].ed && cue.res == cues[i].res@
        },
        lessons::lesson_views(shown).len() == shown.len(),
        0 <= i < shown.len() ==> lessons::lesson_views(shown)[i] == shown[i]@,
        lessons::record_nodes(records).len() == records.len(),
        0 <= i < records.len() ==> lessons::record_nodes(records)[i] == json::json_nodes(
            records[i],
        ),
{
}

/// Of borrowed texts, every one is seen, each in its place.
pub proof fn law_borrowed_texts_are_seen(texts: Seq<&str>, i: int)
    ensures
        text::str_views(texts).len() == texts.len(),
        0 <= i < texts.len() ==> text::str_views(texts)[i] == texts[i]@,
{
}

// ---------------------------------------------------------------------------------------------
// Reports
// ---------------------------------------------------------------------------------------------

/// A report is seen with all that it says.
pub proof fn law_reports_are_seen(report: DownloadProgress, status: AuthStatus)
    ensures
        report@.task_id == report.task_id@,
        report@.lesson_id == report.lesson_id@,
        report@.file_name == report.file_name@,
        report@.stage == report.stage@,
        report@.downloaded == report.downloaded,
        report@.total == report.total,
        report@.message == report.message@,
        progress::report_view(Some(report)) == Some(report@),
        progress::report_view(None) is None,
        status@.phase == status.phase@,
        status@.message == status.message@,
{
}

/// A lesson is seen with all that is known of it, and so is a page.
pub proof fn law_lessons_and_pages_are_seen(lesson: Lesson, url: WebUrl)
    ensures
        lesson@.video_id == lesson.video_id@,
        lesson@.title == lesson.title@,
        lesson@.begin_time == lesson.begin_time@,
        lesson@.end_time == lesson.end_time@,
        lesson@.classroom == lesson.classroom@,
        lesson@.audit_status == lesson.audit_status,
        url@.host == text::option_view(url.host),
        url@.path == url.path@,
        url@.fragment == text::option_view(url.fragment),
{
}

/// What is planned for subtitles is seen as a whole.
pub proof fn law_plans_are_seen(plan: SubtitlePlan, file: TextFile)
    ensures
        plan@.file_name == plan.file_name@,
        plan@.content == plan.content@,
        plan@.caption_name == plan.caption_name@,
        plan@.captions == plan.captions@,
        plan@.starting == plan.starting@,
        plan@.finished == plan.finished@,
        file@ == (TextFileView { file_name: file.file_name@, content: file.content@ }),
        download_task::file_view(Some(file)) == Some(file@),
        download_task::file_view(None) is None,
{
}

// ---------------------------------------------------------------------------------------------
// States and steps
// ---------------------------------------------------------------------------------------------

/// The states of the login and of the reading of lessons are seen as a whole, and a fresh one has
/// nothing behind it.
pub proof fn law_states_are_seen(login: QrLogin, loading: LessonLoading, course_id: u64)
    ensures
        login@.phase == login.phase,
        login@.uuid == login.uuid@,
        login@.referer == login.referer@,
        loading@.phase == loading.phase,
        loading@.course_id == loading.course_id,
        loading@.token_id == loading.token_id@,
        loading@.session == loading.session,
        loading@.lessons == lessons::lesson_views(loading.lessons@),
        qr_login::fresh_login().phase is Idle,
        qr_login::fresh_login().uuid.len() == 0,
        qr_login::fresh_login().referer.len() == 0,
        lesson_loading::fresh_load(course_id).phase is Idle,
        lesson_loading::fresh_load(course_id).course_id == course_id,
        lesson_loading::fresh_load(course_id).token_id.len() == 0,
        lesson_loading::fresh_load(course_id).session is None,
        lesson_loading::fresh_load(course_id).lessons.len() == 0,
{
}

/// The states of downloads are seen as a whole.
pub proof fn law_downloads_are_seen(task: DownloadTask, track: TrackDownload)
    ensures
        task@.phase == task.phase,
        task@.task_id == task.task_id@,
        task@.session == task.session,
        task@.request == task.request,
        task@.cour_id == task.cour_id@,
        task@.single == task.single,
        task@.tracks == task.tracks@,
        task@.current == task.current,
        task@.captions == download_task::file_view(task.captions),
        task@.closing == progress::report_view(task.closing),
        track@ == (TrackView {
            phase: track.phase,
            task_id: track.task_id@,
            lesson_id: track.lesson_id@,
            file_name: track.file_name@,
            track_id: track.track_id@,
            fallback_url: track.fallback_url@,
            token: track.token@,
            existing: track.existing,
            resumed: track.resumed,
            downloaded: track.downloaded,
            total: track.total,
            pending: track.pending,
        }),
{
}

/// A step is seen with its report and its action.
pub proof fn law_steps_are_seen(task: TaskStep, track: TrackStep, login: QrStep)
    ensures
        task@.report == progress::report_view(task.report),
        task@.action == task.action@,
        track@.report == progress::report_view(track.report),
        track@.action == track.action@,
        login@.report == match login.report {
            Some(status) => Some(status@),
            None => None,
        },
        login@.image == text::option_view(login.image),
        login@.action == login.action@,
{
}

// ---------------------------------------------------------------------------------------------
// Events and actions
// ---------------------------------------------------------------------------------------------

/// Every announcement of the login service is seen as what it is, with all that it brings.
pub proof fn law_announcements_are_seen(code: i64, ts: String, sig: String)
    ensures
        QrPush::Ignored@ == QrPushView::Ignored,
        QrPush::ServiceError(code)@ == QrPushView::ServiceError(code),
        (QrPush::NewCode { ts, sig })@ == (QrPushView::NewCode { ts: ts@, sig: sig@ }),
        QrPush::LoggedIn@ == QrPushView::LoggedIn,
{
}

/// Every event of a login is seen as what it is, with all that it brings.
pub proof fn law_login_events_are_seen(
    message: String,
    html: String,
    url: String,
    status: u16,
    bytes: Vec<u8>,
)
    ensures
        QrEvent::Begin@ == QrEventView::Begin,
        QrEvent::ClientBuilt@ == QrEventView::ClientBuilt,
        QrEvent::ClientFailed(message)@ == QrEventView::ClientFailed(message@),
        (QrEvent::PageLoaded { html, url })@ == (QrEventView::PageLoaded {
            html: html@,
            url: url@,
        }),
        QrEvent::PageNotOpened(message)@ == QrEventView::PageNotOpened(message@),
        QrEvent::PageNotRead(message)@ == QrEventView::PageNotRead(message@),
        QrEvent::CookiesFound(message)@ == QrEventView::CookiesFound(message@),
        QrEvent::CookiesMissing(message)@ == QrEventView::CookiesMissing(message@),
        QrEvent::ChannelInvalid(message)@ == QrEventView::ChannelInvalid(message@),
        QrEvent::ChannelRefused(message)@ == QrEventView::ChannelRefused(message@),
        QrEvent::ChannelOpened@ == QrEventView::ChannelOpened,
        QrEvent::RefreshSent@ == QrEventView::RefreshSent,
        QrEvent::RefreshFailed@ == QrEventView::RefreshFailed,
        QrEvent::StopRequested@ == QrEventView::StopRequested,
        QrEvent::RefreshRequested@ == QrEventView::RefreshRequested,
        QrEvent::ControllerGone@ == QrEventView::ControllerGone,
        QrEvent::ChannelClosed@ == QrEventView::ChannelClosed,
        QrEvent::ChannelBroken(message)@ == QrEventView::ChannelBroken(message@),
        QrEvent::TextReceived(message)@ == QrEventView::TextReceived(message@),
        QrEvent::OtherReceived@ == QrEventView::OtherReceived,
        QrEvent::ImageAnswered(status)@ == QrEventView::ImageAnswered(status),
        QrEvent::ImageNotRequested(message)@ == QrEventView::ImageNotRequested(message@),
        QrEvent::ImageRead(bytes)@ == QrEventView::ImageRead(bytes@),
        QrEvent::ImageNotRead(message)@ == QrEventView::ImageNotRead(message@),
        QrEvent::LoginAnswered(message)@ == QrEventView::LoginAnswered(message@),
        QrEvent::LoginFailed(message)@ == QrEventView::LoginFailed(message@),
        QrEvent::CanvasAnswered(status)@ == QrEventView::CanvasAnswered(status),
        QrEvent::CanvasFailed(message)@ == QrEventView::CanvasFailed(message@),
{
}

/// Every action of a login is seen as what it is, with all that it asks for.
pub proof fn law_login_actions_are_seen(
    page_url: String,
    url: String,
    cookie: String,
    uuid: String,
    ts: String,
    sig: String,
    referer: String,
)
    ensures
        QrAction::BuildClient@ == QrActionView::BuildClient,
        QrAction::LoadPage@ == QrActionView::LoadPage,
        (QrAction::CollectCookies { page_url })@ == (QrActionView::CollectCookies {
            page_url: page_url@,
        }),
        (QrAction::OpenChannel { url, cookie })@ == (QrActionView::OpenChannel {
            url: url@,
            cookie: cookie@,
        }),
        QrAction::SendRefresh@ == QrActionView::SendRefresh,
        QrAction::Listen@ == QrActionView::Listen,
        (QrAction::RequestImage { uuid, ts, sig, referer })@ == (QrActionView::RequestImage {
            uuid: uuid@,
            ts: ts@,
            sig: sig@,
            referer: referer@,
        }),
        QrAction::ReadImage@ == QrActionView::ReadImage,
        (QrAction::CompleteLogin { uuid })@ == (QrActionView::CompleteLogin { uuid: uuid@ }),
        QrAction::EnterCanvas@ == QrActionView::EnterCanvas,
        QrAction::Nothing@ == QrActionView::Nothing,
        QrAction::End@ == QrActionView::End,
{
}

/// Every action of the reading of lessons is seen as what it is, with all that it asks for.
pub proof fn law_reading_actions_are_seen(
    url: String,
    token_id: String,
    token: String,
    course_id: String,
    session: VideoSession,
    shown: Vec<Lesson>,
    message: String,
)
    ensures
        (LoadAction::Navigate { url })@ == (LoadActionView::Navigate { url: url@ }),
        LoadAction::ReadAddress@ == LoadActionView::ReadAddress,
        LoadAction::Pause@ == LoadActionView::Pause,
        (LoadAction::ClearAddress { url })@ == (LoadActionView::ClearAddress { url: url@ }),
        (LoadAction::RequestSession { token_id })@ == (LoadActionView::RequestSession {
            token_id: token_id@,
        }),
        (LoadAction::RequestLessons { token, course_id })@ == (LoadActionView::RequestLessons {
            token: token@,
            course_id: course_id@,
        }),
        LoadAction::KeepSession(session)@ == LoadActionView::KeepSession(session),
        LoadAction::Nothing@ == LoadActionView::Nothing,
        LoadAction::Show(shown)@ == LoadActionView::Show(lessons::lesson_views(shown@)),
        LoadAction::Fail(message)@ == LoadActionView::Fail(message@),
{
}

/// Every action of the download of a lesson is seen as what it is, with all that it asks for.
pub proof fn law_task_actions_are_seen(
    chosen: Option<String>,
    token: String,
    lesson_id: String,
    track: TrackDownload,
    course_id: String,
    file_name: String,
    content: String,
)
    ensures
        TaskAction::AwaitSlot@ == TaskActionView::AwaitSlot,
        (TaskAction::CreateDirectory { chosen })@ == (TaskActionView::CreateDirectory {
            chosen: text::option_view(chosen),
        }),
        TaskAction::BuildClient@ == TaskActionView::BuildClient,
        (TaskAction::RequestDetail { token, lesson_id })@ == (TaskActionView::RequestDetail {
            token: token@,
            lesson_id: lesson_id@,
        }),
        TaskAction::DownloadTrack(track)@ == TaskActionView::DownloadTrack(track@),
        (TaskAction::RequestSubtitles { token, course_id })@ == (TaskActionView::RequestSubtitles {
            token: token@,
            course_id: course_id@,
        }),
        (TaskAction::WriteSubtitles { file_name, content })@ == (TaskActionView::WriteSubtitles {
            file_name: file_name@,
            content: content@,
        }),
        TaskAction::Nothing@ == TaskActionView::Nothing,
        TaskAction::End@ == TaskActionView::End,
{
}

/// Every event of the download of a track is seen as what it is, with all that it brings.
pub proof fn law_track_events_are_seen(
    size: Option<u64>,
    status: u16,
    length: Option<u64>,
    message: String,
    number: u64,
)
    ensures
        TrackEvent::Begin@ == TrackEventView::Begin,
        TrackEvent::FileFound(size)@ == TrackEventView::FileFound(size),
        TrackEvent::FileMissing@ == TrackEventView::FileMissing,
        TrackEvent::PartMeasured(size)@ == TrackEventView::PartMeasured(size),
        (TrackEvent::OfficialAnswered { status, length })@ == (TrackEventView::OfficialAnswered {
            status,
            length,
        }),
        TrackEvent::OfficialFailed(message)@ == TrackEventView::OfficialFailed(message@),
        (TrackEvent::FallbackAnswered { status, length })@ == (TrackEventView::FallbackAnswered {
            status,
            length,
        }),
        TrackEvent::FallbackFailed(message)@ == TrackEventView::FallbackFailed(message@),
        TrackEvent::PartOpened@ == TrackEventView::PartOpened,
        TrackEvent::PartNotOpened(message)@ == TrackEventView::PartNotOpened(message@),
        TrackEvent::ChunkRead(number)@ == TrackEventView::ChunkRead(number),
        TrackEvent::ChunkNotRead(message)@ == TrackEventView::ChunkNotRead(message@),
        TrackEvent::ChunksEnded@ == TrackEventView::ChunksEnded,
        TrackEvent::ChunkWritten@ == TrackEventView::ChunkWritten,
        TrackEvent::ChunkNotWritten(message)@ == TrackEventView::ChunkNotWritten(message@),
        TrackEvent::Flushed@ == TrackEventView::Flushed,
        TrackEvent::NotFlushed(message)@ == TrackEventView::NotFlushed(message@),
        TrackEvent::Renamed@ == TrackEventView::Renamed,
        TrackEvent::NotRenamed(message)@ == TrackEventView::NotRenamed(message@),
{
}

/// Every action of the download of a track is seen as what it is, with all that it asks for.
pub proof fn law_track_actions_are_seen(
    file_name: String,
    url: String,
    token: String,
    range: Option<String>,
    append: bool,
    from: String,
    to: String,
    message: String,
)
    ensures
        (TrackAction::CheckFile { file_name })@ == (TrackActionView::CheckFile {
            file_name: file_name@,
        }),
        (TrackAction::MeasurePart { file_name })@ == (TrackActionView::MeasurePart {
            file_name: file_name@,
        }),
        (TrackAction::RequestOfficial { url, token, range })@ == (TrackActionView::RequestOfficial {
            url: url@,
            token: token@,
            range: text::option_view(range),
        }),
        (TrackAction::RequestFallback { url })@ == (TrackActionView::RequestFallback { url: url@ }),
        (TrackAction::OpenPart { file_name, append })@ == (TrackActionView::OpenPart {
            file_name: file_name@,
            append,
        }),
        TrackAction::ReadChunk@ == TrackActionView::ReadChunk,
        TrackAction::WriteChunk@ == TrackActionView::WriteChunk,
        TrackAction::Flush@ == TrackActionView::Flush,
        (TrackAction::Rename { from, to })@ == (TrackActionView::Rename { from: from@, to: to@ }),
        TrackAction::Nothing@ == TrackActionView::Nothing,
        TrackAction::Succeed@ == TrackActionView::Succeed,
        TrackAction::Fail(message)@ == TrackActionView::Fail(message@),
{
}

/// Whatever a look at the login window comes to is seen as what it is.
pub proof fn law_polls_are_seen(message: String)
    ensures
        TokenPoll::Failed(message)@ == TokenPollView::Failed(message@),
        TokenPoll::Found(message)@ == TokenPollView::Found(message@),
        TokenPoll::Wait@ == TokenPollView::Wait,
{
}

} // verus!
