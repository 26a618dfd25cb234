//! What one event does to the download of a track, said of what the event brings.

use vstd::prelude::*;

use crate::api::{VideoSession, VideoTrack};
use crate::endpoints;
use crate::http;
use crate::naming;
use crate::progress::{DownloadRequest, ProgressView};
use crate::text;
use crate::track_download;
use crate::track_download::{TrackActionView, TrackEventView, TrackPhase, TrackStepView, TrackView};

verus! {

/// Whether an event leads to another phase, without a report, and changes nothing else.
pub open spec fn only_does(
    before: TrackView,
    event: TrackEventView,
    phase: TrackPhase,
    action: TrackActionView,
) -> bool {
    let (after, step) = track_download::track_step(before, event);
    after == (TrackView { phase, ..before }) && step.report is None && step.action == action
}

/// Whether an event makes a download fail with a message, without a report.
pub open spec fn fails(before: TrackView, event: TrackEventView, message: Seq<char>) -> bool {
    only_does(before, event, TrackPhase::Failed, TrackActionView::Fail(message))
}

/// A download is made for what was asked: it carries the task, the lesson, the token of the session
/// and the address of the track as they are. The official download goes by the lesson where the
/// lesson has one track, and by the track otherwise. Nothing is downloaded yet.
pub proof fn law_downloads_are_made_for_what_was_asked(
    session: VideoSession,
    request: DownloadRequest,
    track: VideoTrack,
    single: bool,
    earlier: nat,
    task_id: Seq<char>,
)
    ensures
        ({
            let fresh = track_download::fresh_track(
                session,
                request,
                track,
                single,
                earlier,
                task_id,
            );
            &&& fresh.phase is Idle
            &&& fresh.task_id == task_id
            &&& fresh.lesson_id == request.lesson_id@
            &&& fresh.token == session.token@
            &&& fresh.fallback_url == track.rtmp_url_hdv@
            &&& single ==> fresh.track_id == request.lesson_id@
            &&& !single ==> fresh.track_id == track.id@
            &&& single ==> fresh.file_name == naming::safe_name(
                request.lesson_title@ + "_"@ + naming::date_of(request.begin_time@) + "_"@
                    + naming::signal_name(track.cdvi_view_num),
            ) + ".mp4"@
            &&& !single ==> fresh.file_name == naming::numbered_video_name(
                request.lesson_title@,
                request.begin_time@,
                track.cdvi_view_num,
                earlier,
            )
            &&& fresh.existing == 0 && !fresh.resumed && fresh.downloaded == 0 && fresh.total
                is None && fresh.pending == 0
        }),
{
}

/// A download looks for its file first. One that is there is complete, with its size as far as that
/// is known; otherwise what an earlier download has left is measured.
pub proof fn law_files_are_looked_for(state: TrackView, size: Option<u64>)
    ensures
        state.phase is Idle ==> only_does(
            state,
            TrackEventView::Begin,
            TrackPhase::CheckingFile,
            TrackActionView::CheckFile { file_name: state.file_name },
        ),
        state.phase is CheckingFile ==> only_does(
            state,
            TrackEventView::FileMissing,
            TrackPhase::MeasuringPart,
            TrackActionView::MeasurePart { file_name: state.file_name + ".part"@ },
        ),
        state.phase is CheckingFile ==> track_download::track_step(
            state,
            TrackEventView::FileFound(size),
        ) == (
            TrackView { phase: TrackPhase::Done, ..state },
            TrackStepView {
                report: Some(
                    ProgressView {
                        task_id: state.task_id,
                        lesson_id: state.lesson_id,
                        file_name: state.file_name,
                        stage: "completed"@,
                        downloaded: match size {
                            Some(n) => n,
                            None => 0,
                        },
                        total: size,
                        message: "文件已存在"@,
                    },
                ),
                action: TrackActionView::Succeed,
            },
        ),
{
}

/// The official address is asked for the track with the token, and for the rest of the file exactly
/// where something of it is there already.
pub proof fn law_the_official_address_is_asked(state: TrackView, size: Option<u64>)
    requires
        state.phase is MeasuringPart,
    ensures
        ({
            let (after, step) = track_download::track_step(
                state,
                TrackEventView::PartMeasured(size),
            );
            let left = match size {
                Some(n) => n,
                None => 0,
            };
            &&& after == (TrackView {
                phase: TrackPhase::RequestingOfficial,
                existing: left,
                ..state
            })
            &&& step.report is None
            &&& step.action == (TrackActionView::RequestOfficial {
                url:
                    "https://v.sjtu.edu.cn/jy-application-canvas-sjtu/directOnDemandPlay/downloadVideo?id="@
                    + endpoints::base64_text(vstd::utf8::encode_utf8(state.track_id)),
                token: state.token,
                range: if left > 0 {
                    Some("bytes="@ + text::decimal(left as nat) + "-"@)
                } else {
                    None
                },
            })
        }),
{
}

/// Whether an event is an answer with the given status and length to the request that is waited for.
pub open spec fn answers(
    phase: TrackPhase,
    event: TrackEventView,
    status: u16,
    length: Option<u64>,
) -> bool {
    ||| phase is RequestingOfficial && event == (TrackEventView::OfficialAnswered {
        status,
        length,
    })
    ||| phase is RequestingFallback && event == (TrackEventView::FallbackAnswered {
        status,
        length,
    })
}

/// An answer with success opens the file: behind what is there where the answer is the rest of it,
/// and anew otherwise. What the file holds then and what it will hold in the end are counted from
/// that.
pub proof fn law_answers_open_the_file(
    state: TrackView,
    event: TrackEventView,
    status: u16,
    length: Option<u64>,
)
    requires
        answers(state.phase, event, status, length),
        200 <= status < 300,
        length matches Some(n) ==> n + state.existing <= u64::MAX,
    ensures
        ({
            let (after, step) = track_download::track_step(state, event);
            let rest = status == 206 && state.existing > 0;
            &&& step.report is None
            &&& step.action == (TrackActionView::OpenPart {
                file_name: state.file_name + ".part"@,
                append: rest,
            })
            &&& after.phase is OpeningPart
            &&& after.resumed == rest
            &&& after.downloaded == if rest {
                state.existing
            } else {
                0
            }
            &&& length is None ==> after.total is None
            &&& length matches Some(n) ==> (after.total matches Some(total) && total == n
                + after.downloaded)
            &&& after == (TrackView {
                phase: after.phase,
                resumed: after.resumed,
                downloaded: after.downloaded,
                total: after.total,
                ..state
            })
        }),
{
}

/// Where the official address refuses, the address that the track names is asked; where that
/// refuses too, or a request cannot be made, the download fails with the reason.
pub proof fn law_refusals_are_answered(
    state: TrackView,
    status: u16,
    length: Option<u64>,
    cause: Seq<char>,
)
    ensures
        state.phase is RequestingOfficial && !(200 <= status < 300) ==> only_does(
            state,
            TrackEventView::OfficialAnswered { status, length },
            TrackPhase::RequestingFallback,
            TrackActionView::RequestFallback { url: state.fallback_url },
        ),
        state.phase is RequestingFallback && !(200 <= status < 300) ==> fails(
            state,
            TrackEventView::FallbackAnswered { status, length },
            "视频服务返回 "@ + http::status_text(status),
        ),
        state.phase is RequestingOfficial ==> fails(
            state,
            TrackEventView::OfficialFailed(cause),
            "下载请求失败"@ + "："@ + cause,
        ),
        state.phase is RequestingFallback ==> fails(
            state,
            TrackEventView::FallbackFailed(cause),
            "备用下载请求失败"@ + "："@ + cause,
        ),
{
}

/// Chunks are read until they end, and each is written; what cannot be read or written makes the
/// download fail with the reason.
pub proof fn law_chunks_are_written(state: TrackView, length: u64, cause: Seq<char>)
    ensures
        state.phase is OpeningPart ==> only_does(
            state,
            TrackEventView::PartOpened,
            TrackPhase::ReadingChunk,
            TrackActionView::ReadChunk,
        ) && fails(
            state,
            TrackEventView::PartNotOpened(cause),
            "无法创建文件"@ + "："@ + cause,
        ),
        state.phase is ReadingChunk ==> only_does(
            state,
            TrackEventView::ChunksEnded,
            TrackPhase::Flushing,
            TrackActionView::Flush,
        ) && fails(
            state,
            TrackEventView::ChunkNotRead(cause),
            "下载中断"@ + "："@ + cause,
        ) && track_download::track_step(state, TrackEventView::ChunkRead(length)) == (
            TrackView { phase: TrackPhase::WritingChunk, pending: length, ..state },
            TrackStepView { report: None, action: TrackActionView::WriteChunk },
        ),
        state.phase is WritingChunk ==> fails(
            state,
            TrackEventView::ChunkNotWritten(cause),
            "写入失败"@ + "："@ + cause,
        ),
{
}

/// A chunk that was written is counted, and told with what will be there in the end.
pub proof fn law_written_chunks_are_counted(state: TrackView)
    requires
        state.phase is WritingChunk,
        state.downloaded + state.pending <= u64::MAX,
    ensures
        ({
            let (after, step) = track_download::track_step(state, TrackEventView::ChunkWritten);
            &&& after.phase is ReadingChunk
            &&& after.downloaded == state.downloaded + state.pending
            &&& after == (TrackView {
                phase: after.phase,
                downloaded: after.downloaded,
                pending: 0,
                ..state
            })
            &&& step == (TrackStepView {
                report: Some(
                    ProgressView {
                        task_id: state.task_id,
                        lesson_id: state.lesson_id,
                        file_name: state.file_name,
                        stage: "downloading"@,
                        downloaded: after.downloaded,
                        total: state.total,
                        message: "正在下载"@,
                    },
                ),
                action: TrackActionView::ReadChunk,
            })
        }),
{
}

/// A file that is written whole gets its name, and is then complete with the size that was counted.
pub proof fn law_whole_files_get_their_names(state: TrackView, cause: Seq<char>)
    ensures
        state.phase is Flushing ==> only_does(
            state,
            TrackEventView::Flushed,
            TrackPhase::Renaming,
            TrackActionView::Rename { from: state.file_name + ".part"@, to: state.file_name },
        ) && fails(state, TrackEventView::NotFlushed(cause), cause),
        state.phase is Renaming ==> fails(
            state,
            TrackEventView::NotRenamed(cause),
            "完成文件失败"@ + "："@ + cause,
        ) && track_download::track_step(state, TrackEventView::Renamed) == (
            TrackView { phase: TrackPhase::Done, ..state },
            TrackStepView {
                report: Some(
                    ProgressView {
                        task_id: state.task_id,
                        lesson_id: state.lesson_id,
                        file_name: state.file_name,
                        stage: "completed"@,
                        downloaded: state.downloaded,
                        total: Some(state.downloaded),
                        message: "视频下载完成"@,
                    },
                ),
                action: TrackActionView::Succeed,
            },
        ),
{
}

/// What the download of a track waits for in each phase.
pub open spec fn is_awaited(phase: TrackPhase, event: TrackEventView) -> bool {
    match phase {
        TrackPhase::Idle => event is Begin,
        TrackPhase::CheckingFile => event is FileFound || event is FileMissing,
        TrackPhase::MeasuringPart => event is PartMeasured,
        TrackPhase::RequestingOfficial => event is OfficialAnswered || event is OfficialFailed,
        TrackPhase::RequestingFallback => event is FallbackAnswered || event is FallbackFailed,
        TrackPhase::OpeningPart => event is PartOpened || event is PartNotOpened,
        TrackPhase::ReadingChunk => event is ChunkRead || event is ChunkNotRead
            || event is ChunksEnded,
        TrackPhase::WritingChunk => event is ChunkWritten || event is ChunkNotWritten,
        TrackPhase::Flushing => event is Flushed || event is NotFlushed,
        TrackPhase::Renaming => event is Renamed || event is NotRenamed,
        TrackPhase::Done => false,
        TrackPhase::Failed => false,
    }
}

/// What a download does not wait for changes nothing, and nothing is told or done.
pub proof fn law_nothing_else_changes_a_download(state: TrackView, event: TrackEventView)
    requires
        !is_awaited(state.phase, event),
    ensures
        track_download::track_step(state, event) == (
            state,
            TrackStepView { report: None, action: TrackActionView::Nothing },
        ),
{
}

/// The sizes of a download can be counted exactly where they add up to less than two to the
/// sixty-fourth: those of an answer with what it continues, and those of a chunk with what came
/// before it.
pub proof fn law_sizes_that_add_up_are_counted(
    state: TrackView,
    event: TrackEventView,
    status: u16,
    length: u64,
)
    ensures
        ({
            let kept: int = if status == 206 && state.existing > 0 {
                state.existing as int
            } else {
                0
            };
            let fits = kept + length < 0x1_0000_0000_0000_0000;
            &&& track_download::sizes_fit(
                state,
                TrackEventView::OfficialAnswered { status, length: Some(length) },
            ) == fits
            &&& track_download::sizes_fit(
                state,
                TrackEventView::FallbackAnswered { status, length: Some(length) },
            ) == fits
            &&& track_download::sizes_fit(
                state,
                TrackEventView::OfficialAnswered { status, length: None },
            )
            &&& track_download::sizes_fit(
                state,
                TrackEventView::FallbackAnswered { status, length: None },
            )
        }),
        track_download::sizes_fit(state, TrackEventView::ChunkWritten) == (state.downloaded
            + state.pending < 0x1_0000_0000_0000_0000),
        !(event is OfficialAnswered) && !(event is FallbackAnswered) && !(event is ChunkWritten)
            ==> track_download::sizes_fit(state, event),
{
}

} // verus!
