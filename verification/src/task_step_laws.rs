//! What one event does to the download of a lesson, said of what the event brings.

use vstd::prelude::*;

use crate::api;
use crate::api::{ApiEnvelope, VideoDetail, VideoSession, VideoTrack};
use crate::download_task;
use crate::download_task::{TaskActionView, TaskEvent, TaskPhase, TaskStepView, TaskView};
use crate::naming;
use crate::progress::{DownloadRequest, ProgressView};
use crate::subtitles;
use crate::subtitles::SubtitleData;
use crate::task_laws;
use crate::text;
use crate::track_download;

verus! {

/// Whether an event leads to another phase and an action, without a report, and changes nothing
/// else.
pub open spec fn only_does(
    before: TaskView,
    event: TaskEvent,
    phase: TaskPhase,
    action: TaskActionView,
) -> bool {
    download_task::task_step(before, event) == (
        TaskView { phase, ..before },
        TaskStepView { report: None, action },
    )
}

/// Whether an event ends the download with the report that it failed, for the lesson as a whole.
pub open spec fn fails(before: TaskView, event: TaskEvent, message: Seq<char>) -> bool {
    download_task::task_step(before, event) == (
        TaskView { phase: TaskPhase::Ended, ..before },
        TaskStepView {
            report: Some(
                ProgressView {
                    task_id: before.task_id,
                    lesson_id: before.request.lesson_id@,
                    file_name: before.request.lesson_title@,
                    stage: "failed"@,
                    downloaded: 0,
                    total: None,
                    message,
                },
            ),
            action: TaskActionView::End,
        },
    )
}

/// A download is begun for what was asked, with nothing done yet.
pub proof fn law_tasks_are_begun_for_what_was_asked(
    session: VideoSession,
    request: DownloadRequest,
    task_id: Seq<char>,
)
    ensures
        ({
            let fresh = download_task::fresh_task(session, request, task_id);
            &&& fresh.phase is Idle
            &&& fresh.task_id == task_id
            &&& fresh.session == session
            &&& fresh.request == request
            &&& fresh.tracks.len() == 0
            &&& fresh.captions is None && fresh.closing is None
        }),
{
}

/// The name of a download is written in lower-case hexadecimal digits, in five groups with dashes
/// between them.
pub proof fn law_task_names_have_one_form(task_id: Seq<char>)
    requires
        download_task::is_random_id(task_id),
    ensures
        task_id.len() == 36,
        forall|i: int|
            0 <= i < 36 ==> if i == 8 || i == 13 || i == 18 || i == 23 {
                #[trigger] task_id[i] == '-'
            } else {
                '0' <= task_id[i] <= '9' || 'a' <= task_id[i] <= 'f'
            },
{
}

/// What was achieved leads on: the queue is told, and a place, the directory that was chosen and the
/// client are followed by the request for the tracks of the lesson, with the token of the session.
pub proof fn law_a_lesson_is_prepared(state: TaskView)
    ensures
        state.phase is Idle ==> download_task::task_step(state, TaskEvent::Begin) == (
            TaskView { phase: TaskPhase::AwaitingSlot, ..state },
            TaskStepView {
                report: Some(
                    ProgressView {
                        task_id: state.task_id,
                        lesson_id: state.request.lesson_id@,
                        file_name: state.request.lesson_title@,
                        stage: "queued"@,
                        downloaded: 0,
                        total: None,
                        message: "等待下载位置"@,
                    },
                ),
                action: TaskActionView::AwaitSlot,
            },
        ),
        state.phase is AwaitingSlot ==> only_does(
            state,
            TaskEvent::SlotGranted,
            TaskPhase::CreatingDirectory,
            TaskActionView::CreateDirectory {
                chosen: match state.request.output_dir {
                    Some(chosen) => Some(chosen@),
                    None => None,
                },
            },
        ),
        state.phase is CreatingDirectory ==> only_does(
            state,
            TaskEvent::DirectoryCreated,
            TaskPhase::BuildingClient,
            TaskActionView::BuildClient,
        ),
        state.phase is BuildingClient ==> only_does(
            state,
            TaskEvent::ClientBuilt,
            TaskPhase::ReadingDetail,
            TaskActionView::RequestDetail {
                token: state.session.token@,
                lesson_id: state.request.lesson_id@,
            },
        ),
{
}

/// What goes wrong is told with its cause, and ends the download.
pub proof fn law_failures_are_told(state: TaskView, cause: String)
    ensures
        state.phase is AwaitingSlot ==> fails(state, TaskEvent::SlotRefused(cause), cause@),
        state.phase is CreatingDirectory ==> fails(
            state,
            TaskEvent::DirectoryNotCreated(cause),
            "无法创建保存目录"@ + "："@ + cause@,
        ),
        state.phase is BuildingClient || state.phase is ReadingDetail ==> fails(
            state,
            TaskEvent::ClientFailed(cause),
            cause@,
        ),
        state.phase is ReadingDetail ==> fails(
            state,
            TaskEvent::DetailNotRequested(cause),
            "读取视频分轨失败"@ + "："@ + cause@,
        ) && fails(
            state,
            TaskEvent::DetailNotUnderstood(cause),
            "视频分轨响应异常"@ + "："@ + cause@,
        ),
        state.phase is DownloadingTrack ==> fails(state, TaskEvent::TrackFailed(cause), cause@),
        state.phase is ReadingSubtitles ==> fails(
            state,
            TaskEvent::SubtitlesNotRequested(cause),
            "读取字幕失败"@ + "："@ + cause@,
        ) && fails(
            state,
            TaskEvent::SubtitlesNotUnderstood(cause),
            "字幕响应异常"@ + "："@ + cause@,
        ),
        state.phase is WritingSubtitles || state.phase is WritingCaptions ==> fails(
            state,
            TaskEvent::SubtitlesNotWritten(cause),
            "字幕写入失败"@ + "："@ + cause@,
        ),
{
}

/// Tracks are wanted one after the other, each exactly where one of the signals that were asked for
/// is the name of its own, whatever else it holds.
pub proof fn law_tracks_are_wanted_by_their_signals(
    signals: Seq<String>,
    tracks: Seq<VideoTrack>,
    track: VideoTrack,
)
    ensures
        download_task::wanted(signals, Seq::empty()).len() == 0,
        ({
            let asked = exists|i: int|
                0 <= i < signals.len() && #[trigger] signals[i]@ == naming::signal_name(
                    track.cdvi_view_num,
                );
            download_task::wanted(signals, tracks.push(track)) == if asked {
                download_task::wanted(signals, tracks).push(track)
            } else {
                download_task::wanted(signals, tracks)
            }
        }),
{
    reveal_with_fuel(Seq::filter, 1);
    assert(tracks.push(track).drop_last() =~= tracks);
}

/// The tracks before a place that carry the same signal are counted, one by one.
pub proof fn law_equal_signals_are_counted(tracks: Seq<VideoTrack>, place: int, code: i64)
    requires
        0 <= place < tracks.len(),
    ensures
        download_task::earlier_with(tracks, 0, code) == 0,
        download_task::earlier_with(tracks, place + 1, code) == download_task::earlier_with(
            tracks,
            place,
            code,
        ) + (if naming::signal_name(tracks[place].cdvi_view_num) == naming::signal_name(code) {
            1int
        } else {
            0
        }),
{
}

/// Whether the outcome of a step is that the track at `place` is downloaded next.
pub open spec fn turns_to(
    before: TaskView,
    outcome: (TaskView, TaskStepView),
    place: int,
) -> bool {
    let after = outcome.0;
    &&& after.phase is DownloadingTrack
    &&& after.current == place
    &&& after.task_id == before.task_id && after.session == before.session && after.request
        == before.request
    &&& after.captions == before.captions && after.closing == before.closing
    &&& outcome.1 == (TaskStepView {
        report: None,
        action: TaskActionView::DownloadTrack(
            track_download::fresh_track(
                before.session,
                before.request,
                after.tracks[place],
                after.single,
                download_task::earlier_with(
                    after.tracks,
                    place,
                    after.tracks[place].cdvi_view_num,
                ),
                before.task_id,
            ),
        ),
    })
}

/// Whether the outcome of a step is what follows the last track: the subtitles are asked for where
/// the user wants them, whatever the tracks were, and otherwise the download is done.
pub open spec fn is_past_the_tracks(before: TaskView, outcome: (TaskView, TaskStepView)) -> bool {
    let after = outcome.0;
    &&& after.task_id == before.task_id && after.session == before.session && after.request
        == before.request
    &&& after.captions == before.captions && after.closing == before.closing
    &&& outcome.1.report is None
    &&& before.request.include_subtitles ==> after.phase is ReadingSubtitles && outcome.1.action
        == (TaskActionView::RequestSubtitles {
        token: before.session.token@,
        course_id: after.cour_id,
    })
    &&& !before.request.include_subtitles ==> after.phase is Ended && outcome.1.action is End
}

/// The tracks that the lesson lists and that are wanted are downloaded from the first one on; where
/// none is wanted, what follows the tracks comes at once. An answer without tracks is told.
pub proof fn law_the_first_wanted_track_comes_first(
    state: TaskView,
    envelope: ApiEnvelope<VideoDetail>,
)
    requires
        state.phase is ReadingDetail,
    ensures
        envelope.data matches Some(detail) ==> {
            let outcome = download_task::task_step(state, TaskEvent::DetailAnswered(envelope));
            let listed = detail.video_play_response_vo_list@;
            &&& outcome.0.tracks == download_task::wanted(state.request.signals@, listed)
            &&& outcome.0.cour_id == detail.cour_id@
            &&& outcome.0.single == (listed.len() == 1)
            &&& outcome.0.tracks.len() > 0 ==> turns_to(state, outcome, 0)
            &&& outcome.0.tracks.len() == 0 ==> is_past_the_tracks(state, outcome)
        },
        envelope.data is None ==> fails(
            state,
            TaskEvent::DetailAnswered(envelope),
            api::refusal_text(
                text::option_view(envelope.message),
                envelope.status,
                "读取视频分轨失败"@,
            ),
        ),
{
}

/// A track that has succeeded is followed by the next one of the list, and the last one by what
/// follows the tracks.
pub proof fn law_tracks_follow_one_another(state: TaskView)
    requires
        state.phase is DownloadingTrack,
        0 <= state.current < state.tracks.len(),
    ensures
        ({
            let outcome = download_task::task_step(state, TaskEvent::TrackSucceeded);
            &&& outcome.0.tracks == state.tracks && outcome.0.single == state.single
                && outcome.0.cour_id == state.cour_id
            &&& state.current + 1 < state.tracks.len() ==> turns_to(
                state,
                outcome,
                state.current + 1,
            )
            &&& state.current + 1 == state.tracks.len() ==> is_past_the_tracks(state, outcome)
        }),
{
}

/// Subtitles that the lesson has are written in both forms, one file after the other, and then told
/// as saved; a lesson without any is done.
pub proof fn law_subtitles_are_written(state: TaskView, envelope: ApiEnvelope<SubtitleData>)
    requires
        state.phase is ReadingSubtitles,
        envelope.status != Some(115117i64),
    ensures
        ({
            let (after, step) = download_task::task_step(
                state,
                TaskEvent::SubtitlesAnswered(envelope),
            );
            let has_any = envelope.data matches Some(found) && found.after_assembly_list@.len() > 0;
            let cues = subtitles::cue_views((envelope.data->0).after_assembly_list@);
            let plan = subtitles::subtitle_plan(state.request, state.task_id, cues);
            &&& has_any ==> after == (TaskView {
                phase: TaskPhase::WritingSubtitles,
                captions: Some(
                    download_task::TextFileView {
                        file_name: plan.caption_name,
                        content: plan.captions,
                    },
                ),
                closing: Some(plan.finished),
                ..state
            }) && step == (TaskStepView {
                report: Some(plan.starting),
                action: TaskActionView::WriteSubtitles {
                    file_name: plan.file_name,
                    content: plan.content,
                },
            })
            &&& !has_any ==> after == (TaskView { phase: TaskPhase::Ended, ..state }) && step == (
            TaskStepView { report: None, action: TaskActionView::End })
        }),
{
}

/// An answer that refuses the subtitles because the token has expired is told, whatever else it
/// holds, and asks to log in again.
pub proof fn law_expired_tokens_stop_subtitles(state: TaskView, envelope: ApiEnvelope<SubtitleData>)
    requires
        state.phase is ReadingSubtitles,
        envelope.status == Some(115117i64),
    ensures
        ({
            let reason = match envelope.message {
                Some(given) => given@,
                None => "服务未返回数据"@,
            };
            fails(
                state,
                TaskEvent::SubtitlesAnswered(envelope),
                "读取字幕失败"@ + "："@ + reason + ("（状态 "@ + text::signed_decimal(115117)
                    + "）"@) + "，请重新扫码登录"@,
            )
        }),
{
}

/// The first file of subtitles is followed by the second, and the second by the report that they
/// are saved and the end.
pub proof fn law_both_files_are_written(state: TaskView, file: download_task::TextFileView)
    ensures
        state.phase is WritingSubtitles && state.captions == Some(file)
            ==> download_task::task_step(state, TaskEvent::SubtitlesWritten) == (
            TaskView { phase: TaskPhase::WritingCaptions, captions: None, ..state },
            TaskStepView {
                report: None,
                action: TaskActionView::WriteSubtitles {
                    file_name: file.file_name,
                    content: file.content,
                },
            },
        ),
        state.phase is WritingSubtitles && state.captions is None ==> download_task::task_step(
            state,
            TaskEvent::SubtitlesWritten,
        ) == (
            TaskView { phase: TaskPhase::Ended, closing: None, ..state },
            TaskStepView { report: state.closing, action: TaskActionView::End },
        ),
        state.phase is WritingCaptions ==> download_task::task_step(
            state,
            TaskEvent::SubtitlesWritten,
        ) == (
            TaskView { phase: TaskPhase::Ended, closing: None, ..state },
            TaskStepView { report: state.closing, action: TaskActionView::End },
        ),
{
}

/// What the download of a lesson waits for in each phase.
pub open spec fn is_awaited(phase: TaskPhase, event: TaskEvent) -> bool {
    match phase {
        TaskPhase::Idle => event is Begin,
        TaskPhase::AwaitingSlot => event is SlotGranted || event is SlotRefused,
        TaskPhase::CreatingDirectory => event is DirectoryCreated || event is DirectoryNotCreated,
        TaskPhase::BuildingClient => event is ClientBuilt || event is ClientFailed,
        TaskPhase::ReadingDetail => event is DetailAnswered || event is DetailNotRequested
            || event is DetailNotUnderstood || event is ClientFailed,
        TaskPhase::DownloadingTrack => event is TrackSucceeded || event is TrackFailed,
        TaskPhase::ReadingSubtitles => event is SubtitlesAnswered || event is SubtitlesNotRequested
            || event is SubtitlesNotUnderstood,
        TaskPhase::WritingSubtitles => event is SubtitlesWritten || event is SubtitlesNotWritten,
        TaskPhase::WritingCaptions => event is SubtitlesWritten || event is SubtitlesNotWritten,
        TaskPhase::Ended => false,
    }
}

/// What a download does not wait for changes nothing, and nothing is told or done.
pub proof fn law_nothing_else_changes_a_task(state: TaskView, event: TaskEvent)
    requires
        !is_awaited(state.phase, event),
    ensures
        download_task::task_step(state, event) == (
            state,
            TaskStepView { report: None, action: TaskActionView::Nothing },
        ),
{
}

// ---------------------------------------------------------------------------------------------
// Whole downloads
// ---------------------------------------------------------------------------------------------

/// Whether one of the events is the answer to the request for subtitles.
pub open spec fn were_answered(events: Seq<TaskEvent>) -> bool {
    exists|i: int| 0 <= i < events.len() && #[trigger] events[i] is SubtitlesAnswered
}

proof fn lemma_writing_follows_an_answer(start: TaskView, events: Seq<TaskEvent>)
    requires
        start.phase is Idle,
    ensures
        ({
            let phase = task_laws::state_after(start, events).phase;
            phase is WritingSubtitles || phase is WritingCaptions ==> were_answered(events)
        }),
        task_laws::state_after(start, events).request == start.request,
    decreases events.len(),
{
    if events.len() > 0 {
        let earlier = events.drop_last();
        lemma_writing_follows_an_answer(start, earlier);
        let before = task_laws::state_after(start, earlier);
        let after = task_laws::state_after(start, events);
        if after.phase is WritingSubtitles || after.phase is WritingCaptions {
            if were_answered(earlier) {
                let i = choose|i: int|
                    0 <= i < earlier.len() && #[trigger] earlier[i] is SubtitlesAnswered;
                assert(events[i] is SubtitlesAnswered);
            } else {
                assert(before.phase is ReadingSubtitles);
                assert(events[events.len() - 1] is SubtitlesAnswered);
            }
        }
    }
}

/// Subtitles that the user wants are never left out: such a download ends only with the report that
/// it failed, or once the request for the subtitles was answered.
pub proof fn law_wanted_subtitles_are_asked_for(
    session: VideoSession,
    request: DownloadRequest,
    task_id: Seq<char>,
    events: Seq<TaskEvent>,
    n: int,
)
    requires
        request.include_subtitles,
        0 <= n < events.len(),
        task_laws::step_at(
            download_task::fresh_task(session, request, task_id),
            events,
            n,
        ).action is End,
    ensures
        ({
            let step = task_laws::step_at(
                download_task::fresh_task(session, request, task_id),
                events,
                n,
            );
            ||| step.report matches Some(report) && report.stage == "failed"@
            ||| were_answered(events.take(n + 1))
        }),
{
    let start = download_task::fresh_task(session, request, task_id);
    let earlier = events.take(n);
    let now = events.take(n + 1);
    lemma_writing_follows_an_answer(start, earlier);
    assert(now.drop_last() =~= earlier);
    if were_answered(earlier) {
        let i = choose|i: int| 0 <= i < earlier.len() && #[trigger] earlier[i] is SubtitlesAnswered;
        assert(now[i] is SubtitlesAnswered);
    } else if events[n] is SubtitlesAnswered {
        assert(now[n] is SubtitlesAnswered);
    }
}

/// Where all goes well, every track that is wanted has been started by the time the subtitles are
/// asked for or the download ends.
pub proof fn law_no_wanted_track_is_left_out(
    session: VideoSession,
    request: DownloadRequest,
    task_id: Seq<char>,
    events: Seq<TaskEvent>,
    n: int,
)
    requires
        0 <= n < events.len(),
        ({
            let start = download_task::fresh_task(session, request, task_id);
            let step = task_laws::step_at(start, events, n);
            step.action is RequestSubtitles || step.action is End && step.report is None
        }),
    ensures
        ({
            let start = download_task::fresh_task(session, request, task_id);
            let now = events.take(n + 1);
            task_laws::started(start, now) == task_laws::downloads(
                task_laws::state_after(start, now),
            )
        }),
{
    let start = download_task::fresh_task(session, request, task_id);
    let earlier = events.take(n);
    let now = events.take(n + 1);
    assert(now.drop_last() =~= earlier);
    assert(now.last() == events[n]);
    task_laws::law_tracks_come_in_order(session, request, task_id, earlier);
    let before = task_laws::state_after(start, earlier);
    let after = task_laws::state_after(start, now);
    let begun = task_laws::started(start, earlier);
    assert(task_laws::started(start, now) == begun);
    assert(after.tracks == before.tracks || before.phase is ReadingDetail);
    if before.phase is ReadingDetail {
        lemma_nothing_started_early(start, earlier);
        assert(begun =~= task_laws::downloads(after));
    } else {
        lemma_sound(start, earlier);
        assert(begun.len() == before.tracks.len());
        assert(task_laws::downloads(before).take(begun.len() as int) =~= task_laws::downloads(
            after,
        ));
    }
}

proof fn lemma_sound(start: TaskView, events: Seq<TaskEvent>)
    requires
        start.phase is Idle,
    ensures
        download_task::is_sound(task_laws::state_after(start, events)),
        task_laws::state_after(start, events).phase is WritingCaptions
            || !(task_laws::state_after(start, events).closing is None)
            || !(task_laws::state_after(start, events).phase is WritingSubtitles),
    decreases events.len(),
{
    if events.len() > 0 {
        lemma_sound(start, events.drop_last());
    }
}

proof fn lemma_nothing_started_early(start: TaskView, events: Seq<TaskEvent>)
    requires
        start.phase is Idle,
        download_task::is_opening(task_laws::state_after(start, events).phase),
    ensures
        task_laws::started(start, events).len() == 0,
    decreases events.len(),
{
    if events.len() > 0 {
        lemma_nothing_started_early(start, events.drop_last());
    }
}

} // verus!
