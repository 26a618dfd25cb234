//! What holds of every course that the download of a lesson takes.

use vstd::prelude::*;

use crate::api;
use crate::api::{ApiEnvelope, VideoDetail, VideoSession, VideoTrack};
use crate::download_task;
use crate::download_task::{
    TaskActionView,
    TaskEvent,
    TaskPhase,
    TaskStepView,
    TaskView,
    TextFileView,
};
use crate::naming;
use crate::progress::DownloadRequest;
use crate::subtitles;
use crate::subtitles::CueView;
use crate::text;
use crate::track_download;
use crate::track_download::TrackView;

verus! {

/// The download after a sequence of events.
pub open spec fn state_after(start: TaskView, events: Seq<TaskEvent>) -> TaskView
    decreases events.len(),
{
    if events.len() == 0 {
        start
    } else {
        download_task::task_step(state_after(start, events.drop_last()), events.last()).0
    }
}

/// What comes of the event at `i`.
pub open spec fn step_at(start: TaskView, events: Seq<TaskEvent>, i: int) -> TaskStepView {
    download_task::task_step(state_after(start, events.take(i)), events[i]).1
}

/// The downloads of tracks that are started in the course of a sequence of events, in order.
pub open spec fn started(start: TaskView, events: Seq<TaskEvent>) -> Seq<TrackView>
    decreases events.len(),
{
    if events.len() == 0 {
        Seq::empty()
    } else {
        let earlier = events.drop_last();
        let step = download_task::task_step(state_after(start, earlier), events.last()).1;
        match step.action {
            TaskActionView::DownloadTrack(track) => started(start, earlier).push(track),
            _ => started(start, earlier),
        }
    }
}

/// The downloads of the tracks that the lesson has and that are asked for, in order.
pub open spec fn downloads(state: TaskView) -> Seq<TrackView> {
    Seq::new(
        state.tracks.len(),
        |i: int|
            track_download::fresh_track(
                state.session,
                state.request,
                state.tracks[i],
                state.single,
                download_task::earlier_with(state.tracks, i, state.tracks[i].cdvi_view_num),
                state.task_id,
            ),
    )
}

/// The phases behind the tracks, as long as the download has not ended.
pub open spec fn is_past_tracks(phase: TaskPhase) -> bool {
    phase is ReadingSubtitles || phase is WritingSubtitles || phase is WritingCaptions
}

/// What the state says of the downloads that were started, and of the report that is to come.
spec fn state_is_true(start: TaskView, state: TaskView, begun: Seq<TrackView>) -> bool {
    &&& state.task_id == start.task_id
    &&& state.session == start.session
    &&& state.request == start.request
    &&& download_task::is_opening(state.phase) ==> state.tracks.len() == 0
    &&& state.phase is DownloadingTrack ==> 0 <= state.current < state.tracks.len()
        && begun.len() == state.current + 1
    &&& is_past_tracks(state.phase) ==> begun.len()
        == state.tracks.len() && state.request.include_subtitles
    &&& begun.len() <= state.tracks.len()
    &&& state.single ==> state.tracks.len() <= 1
    &&& forall|i: int| 0 <= i < begun.len() ==> #[trigger] begun[i] == downloads(state)[i]
    &&& state.closing matches Some(report) ==> report.stage == "completed"@ && report.task_id
        == start.task_id && report.lesson_id == start.request.lesson_id@
}

proof fn lemma_state_is_true(start: TaskView, events: Seq<TaskEvent>)
    requires
        start == download_task::fresh_task(start.session, start.request, start.task_id),
    ensures
        state_is_true(start, state_after(start, events), started(start, events)),
    decreases events.len(),
{
    if events.len() > 0 {
        let earlier = events.drop_last();
        lemma_state_is_true(start, earlier);
        broadcast use vstd::seq_lib::group_filter_ensures;

        let before = state_after(start, earlier);
        let after = state_after(start, events);
        let begun = started(start, earlier);
        let now = started(start, events);
        assert forall|i: int| 0 <= i < now.len() implies #[trigger] now[i] == downloads(
            after,
        )[i] by {
            if i < begun.len() {
                assert(begun[i] == downloads(before)[i]);
            }
        }
    }
}

/// The stages of reports can be told apart.
proof fn lemma_stage_names()
    ensures
        "failed"@ != "queued"@,
        "failed"@ != "completed"@,
        "failed"@ != "writing-subtitles"@,
        "completed"@ != "queued"@,
        "completed"@ != "writing-subtitles"@,
{
    reveal_strlit("failed");
    reveal_strlit("queued");
    reveal_strlit("completed");
    reveal_strlit("writing-subtitles");
    assert("failed"@[0] == 'f');
    assert("queued"@[0] == 'q');
    assert("queued"@.len() == 6);
    assert("completed"@.len() == 9);
    assert("failed"@.len() == 6);
    assert("writing-subtitles"@.len() == 17);
}

/// The tracks that are asked for are downloaded one after the other in the order of the lesson,
/// none of them twice: what was started so far is always a first part of the list. Subtitles are
/// asked for only where the user wants them, and only behind the last track.
pub proof fn law_tracks_come_in_order(
    session: VideoSession,
    request: DownloadRequest,
    task_id: Seq<char>,
    events: Seq<TaskEvent>,
)
    ensures
        ({
            let start = download_task::fresh_task(session, request, task_id);
            let state = state_after(start, events);
            let begun = started(start, events);
            &&& begun.len() <= state.tracks.len()
            &&& begun == downloads(state).take(begun.len() as int)
            &&& state.phase is DownloadingTrack ==> begun.len() == state.current + 1
            &&& is_past_tracks(state.phase) ==> begun
                == downloads(state) && request.include_subtitles
        }),
{
    let start = download_task::fresh_task(session, request, task_id);
    lemma_state_is_true(start, events);
    let state = state_after(start, events);
    let begun = started(start, events);
    assert(begun =~= downloads(state).take(begun.len() as int));
    if is_past_tracks(state.phase) {
        assert(begun =~= downloads(state));
    }
}

/// A failure is reported once and last: with the report the download has ended.
pub proof fn law_failure_is_the_last_report(
    session: VideoSession,
    request: DownloadRequest,
    task_id: Seq<char>,
    events: Seq<TaskEvent>,
    n: int,
)
    requires
        0 <= n < events.len(),
        ({
            let start = download_task::fresh_task(session, request, task_id);
            step_at(start, events, n).report matches Some(report) && report.stage == "failed"@
        }),
    ensures
        ({
            let start = download_task::fresh_task(session, request, task_id);
            &&& state_after(start, events.take(n + 1)).phase is Ended
            &&& step_at(start, events, n).action is End
            &&& forall|k: int|
                n < k < events.len() ==> #[trigger] step_at(start, events, k)
                    == download_task::quiet(TaskActionView::Nothing)
        }),
{
    lemma_stage_names();
    let start = download_task::fresh_task(session, request, task_id);
    lemma_state_is_true(start, events.take(n));
    let now = events.take(n + 1);
    assert(now.drop_last() == events.take(n));
    assert(now.last() == events[n]);
    let ended = state_after(start, now);
    assert(ended.phase is Ended);
    assert forall|k: int| n < k < events.len() implies #[trigger] step_at(start, events, k)
        == download_task::quiet(TaskActionView::Nothing) by {
        lemma_state_splits(start, events.take(k), n + 1);
        assert(events.take(k).take(n + 1) == now);
        law_ended_tasks_stay_ended(ended, events.take(k).skip(n + 1));
    }
}

proof fn lemma_state_splits(start: TaskView, events: Seq<TaskEvent>, n: int)
    requires
        0 <= n <= events.len(),
    ensures
        state_after(start, events) == state_after(
            state_after(start, events.take(n)),
            events.skip(n),
        ),
    decreases events.len(),
{
    if n == events.len() {
        assert(events.take(n) == events);
        assert(events.skip(n).len() == 0);
    } else {
        let earlier = events.drop_last();
        lemma_state_splits(start, earlier, n);
        assert(earlier.take(n) == events.take(n));
        assert(events.skip(n).drop_last() == earlier.skip(n));
        assert(events.skip(n).last() == events.last());
    }
}

/// A download that has ended stays as it is, and nothing more is done or reported.
pub proof fn law_ended_tasks_stay_ended(state: TaskView, events: Seq<TaskEvent>)
    requires
        state.phase is Ended,
    ensures
        state_after(state, events) == state,
        forall|i: int|
            0 <= i < events.len() ==> #[trigger] step_at(state, events, i) == download_task::quiet(
                TaskActionView::Nothing,
            ),
    decreases events.len(),
{
    if events.len() > 0 {
        let earlier = events.drop_last();
        law_ended_tasks_stay_ended(state, earlier);
        assert forall|i: int| 0 <= i < events.len() implies #[trigger] step_at(state, events, i)
            == download_task::quiet(TaskActionView::Nothing) by {
            if i < earlier.len() {
                assert(earlier.take(i) == events.take(i));
                assert(step_at(state, earlier, i) == download_task::quiet(
                    TaskActionView::Nothing,
                ));
            } else {
                assert(events.take(i) == earlier);
            }
        }
    }
}

/// The first track that fails ends the download of the lesson, with its message: no further track
/// and no subtitles are asked for.
pub proof fn law_first_failure_ends_the_task(state: TaskView, message: String)
    requires
        state.phase is DownloadingTrack,
    ensures
        download_task::task_step(state, TaskEvent::TrackFailed(message)) == (
            download_task::in_phase(state, TaskPhase::Ended),
            TaskStepView {
                report: Some(download_task::lesson_report(state, "failed"@, message@)),
                action: TaskActionView::End,
            },
        ),
{
}

/// Every report of a download carries the name of its task and of its lesson.
pub proof fn law_reports_name_the_task(
    session: VideoSession,
    request: DownloadRequest,
    task_id: Seq<char>,
    events: Seq<TaskEvent>,
    n: int,
)
    requires
        0 <= n < events.len(),
    ensures
        step_at(download_task::fresh_task(session, request, task_id), events, n).report
            matches Some(report) ==> report.task_id == task_id && report.lesson_id
            == request.lesson_id@,
{
    lemma_state_is_true(download_task::fresh_task(session, request, task_id), events.take(n));
}

proof fn lemma_count_grows(tracks: Seq<VideoTrack>, i: int, j: int, code: i64)
    requires
        0 <= i < j,
        naming::signal_name(tracks[i].cdvi_view_num) == naming::signal_name(code),
    ensures
        download_task::earlier_with(tracks, i, code) < download_task::earlier_with(tracks, j, code),
    decreases j,
{
    if i < j - 1 {
        lemma_count_grows(tracks, i, j - 1, code);
    }
}

proof fn lemma_count_is_of_the_signal(tracks: Seq<VideoTrack>, place: int, a: i64, b: i64)
    requires
        naming::signal_name(a) == naming::signal_name(b),
    ensures
        download_task::earlier_with(tracks, place, a) == download_task::earlier_with(
            tracks,
            place,
            b,
        ),
    decreases place,
{
    if place > 0 {
        lemma_count_is_of_the_signal(tracks, place - 1, a, b);
    }
}

/// The tracks of a lesson are saved separately: no two downloads of a task have the same file,
/// whatever the title and the time are and whatever signals the tracks carry.
pub proof fn law_tracks_are_saved_separately(
    session: VideoSession,
    request: DownloadRequest,
    task_id: Seq<char>,
    events: Seq<TaskEvent>,
    i: int,
    j: int,
)
    requires
        0 <= i < j < started(download_task::fresh_task(session, request, task_id), events).len(),
    ensures
        ({
            let begun = started(download_task::fresh_task(session, request, task_id), events);
            begun[i].file_name != begun[j].file_name
        }),
{
    let start = download_task::fresh_task(session, request, task_id);
    lemma_state_is_true(start, events);
    let state = state_after(start, events);
    let begun = started(start, events);
    let a = state.tracks[i].cdvi_view_num;
    let b = state.tracks[j].cdvi_view_num;
    let m = download_task::earlier_with(state.tracks, i, a);
    let n = download_task::earlier_with(state.tracks, j, b);
    assert(begun[i] == downloads(state)[i]);
    assert(begun[j] == downloads(state)[j]);
    if naming::signal_name(a) == naming::signal_name(b) {
        lemma_count_grows(state.tracks, i, j, a);
        lemma_count_is_of_the_signal(state.tracks, j, a, b);
    }
    naming::law_numbered_tracks_have_their_own_files(
        request.lesson_title@,
        request.begin_time@,
        a,
        m,
        b,
        n,
    );
}

/// The official download of a lesson with one track asks for the lesson, and that of a lesson with
/// several tracks asks for each of them.
pub proof fn law_single_tracks_go_by_the_lesson(
    state: TaskView,
    envelope: ApiEnvelope<VideoDetail>,
)
    requires
        state.phase is ReadingDetail,
        envelope.data is Some,
    ensures
        ({
            let listed = (envelope.data->0).video_play_response_vo_list@;
            let after = download_task::task_step(state, TaskEvent::DetailAnswered(envelope)).0;
            &&& after.tracks == download_task::wanted(state.request.signals@, listed)
            &&& forall|i: int|
                0 <= i < after.tracks.len() ==> (#[trigger] downloads(after)[i]).track_id == if (
                listed.len() == 1) {
                    state.request.lesson_id@
                } else {
                    after.tracks[i].id@
                }
        }),
{
}

/// Where the token has expired, the download fails and asks the user to log in again.
pub proof fn law_expired_tasks_ask_to_log_in(state: TaskView, event: TaskEvent)
    requires
        match event {
            TaskEvent::DetailAnswered(envelope) => state.phase is ReadingDetail
                && envelope.data is None && envelope.status == Some(api::EXPIRED_STATUS),
            TaskEvent::SubtitlesAnswered(envelope) => state.phase is ReadingSubtitles
                && envelope.status == Some(api::EXPIRED_STATUS),
            _ => false,
        },
    ensures
        download_task::task_step(state, event).0.phase is Ended,
        download_task::task_step(state, event).1.report matches Some(report) && report.stage
            == "failed"@ && api::asks_to_log_in(report.message),
{
    match event {
        TaskEvent::DetailAnswered(envelope) => api::law_expired_tokens_ask_to_log_in(
            text::option_view(envelope.message),
            "读取视频分轨失败"@,
        ),
        TaskEvent::SubtitlesAnswered(envelope) => api::law_expired_tokens_ask_to_log_in(
            text::option_view(envelope.message),
            "读取字幕失败"@,
        ),
        _ => {},
    }
}

/// Whether the event at `i` leads to the SubRip file of the cues being written.
pub open spec fn writes_srt(
    start: TaskView,
    events: Seq<TaskEvent>,
    i: int,
    cues: Seq<CueView>,
) -> bool {
    step_at(start, events, i).action == (TaskActionView::WriteSubtitles {
        file_name: naming::subtitle_name(start.request.lesson_title@, start.request.begin_time@),
        content: subtitles::srt_text(cues),
    })
}

/// Whether the event at `i` leads to the WebVTT file of the cues being written.
pub open spec fn writes_vtt(
    start: TaskView,
    events: Seq<TaskEvent>,
    i: int,
    cues: Seq<CueView>,
) -> bool {
    step_at(start, events, i).action == (TaskActionView::WriteSubtitles {
        file_name: naming::caption_name(start.request.lesson_title@, start.request.begin_time@),
        content: subtitles::vtt_text(cues),
    })
}

/// What is written and what is to be written while the subtitles of the cues are saved, the
/// SubRip file at the event at `i` and the WebVTT file at the one at `j`.
spec fn files_are_true(
    start: TaskView,
    events: Seq<TaskEvent>,
    state: TaskView,
    cues: Seq<CueView>,
    i: int,
    j: int,
) -> bool {
    &&& 0 <= i < events.len()
    &&& writes_srt(start, events, i, cues)
    &&& state.phase is WritingSubtitles ==> state.captions == Some(
        TextFileView {
            file_name: naming::caption_name(
                start.request.lesson_title@,
                start.request.begin_time@,
            ),
            content: subtitles::vtt_text(cues),
        },
    )
    &&& state.phase is WritingCaptions ==> i < j < events.len() && writes_vtt(
        start,
        events,
        j,
        cues,
    )
}

proof fn lemma_files_are_true(start: TaskView, events: Seq<TaskEvent>) -> (r: (
    Seq<CueView>,
    int,
    int,
))
    requires
        start == download_task::fresh_task(start.session, start.request, start.task_id),
    ensures
        ({
            let state = state_after(start, events);
            state.phase is WritingSubtitles || state.phase is WritingCaptions ==> files_are_true(
                start,
                events,
                state,
                r.0,
                r.1,
                r.2,
            )
        }),
    decreases events.len(),
{
    if events.len() == 0 {
        (Seq::empty(), 0, 0)
    } else {
        let earlier = events.drop_last();
        let last = events.len() - 1;
        let before = state_after(start, earlier);
        let after = state_after(start, events);
        let (cues, i, j) = lemma_files_are_true(start, earlier);
        lemma_state_is_true(start, earlier);
        assert(events.take(last) == earlier);
        if before.phase is WritingSubtitles || before.phase is WritingCaptions {
            assert(earlier.take(i) == events.take(i));
            assert(writes_srt(start, events, i, cues));
            if before.phase is WritingSubtitles {
                (cues, i, last)
            } else {
                assert(earlier.take(j) == events.take(j));
                (cues, i, j)
            }
        } else {
            match events.last() {
                TaskEvent::SubtitlesAnswered(envelope) => (
                    subtitles::cue_views((envelope.data->0).after_assembly_list@),
                    last,
                    last,
                ),
                _ => (cues, i, j),
            }
        }
    }
}

/// Subtitles are reported as saved only once both of their files were written: the SubRip file and
/// then the WebVTT file, with the same cues and under the same name but for its extension.
pub proof fn law_saved_subtitles_have_both_files(
    session: VideoSession,
    request: DownloadRequest,
    task_id: Seq<char>,
    events: Seq<TaskEvent>,
    n: int,
)
    requires
        0 <= n < events.len(),
        ({
            let start = download_task::fresh_task(session, request, task_id);
            step_at(start, events, n).report matches Some(report) && report.stage == "completed"@
        }),
    ensures
        ({
            let start = download_task::fresh_task(session, request, task_id);
            &&& events[n] is SubtitlesWritten
            &&& exists|cues: Seq<CueView>, i: int, j: int|
                0 <= i < j < n && #[trigger] writes_srt(start, events, i, cues)
                    && #[trigger] writes_vtt(start, events, j, cues)
        }),
{
    lemma_stage_names();
    let start = download_task::fresh_task(session, request, task_id);
    let earlier = events.take(n);
    let before = state_after(start, earlier);
    lemma_state_is_true(start, earlier);
    let (cues, i, j) = lemma_files_are_true(start, earlier);
    assert(before.phase is WritingCaptions);
    assert(earlier.take(i) == events.take(i));
    assert(earlier.take(j) == events.take(j));
    assert(writes_srt(start, events, i, cues));
    assert(writes_vtt(start, events, j, cues));
}

/// What the user is told about a download does not depend on the session: two downloads that
/// differ in nothing else give the same reports.
pub proof fn law_reports_hide_the_session(
    session: VideoSession,
    other: VideoSession,
    request: DownloadRequest,
    task_id: Seq<char>,
    events: Seq<TaskEvent>,
    n: int,
)
    requires
        0 <= n < events.len(),
    ensures
        step_at(download_task::fresh_task(session, request, task_id), events, n).report == step_at(
            download_task::fresh_task(other, request, task_id),
            events,
            n,
        ).report,
{
    lemma_session_is_carried(session, other, request, task_id, events.take(n));
}

proof fn lemma_session_is_carried(
    session: VideoSession,
    other: VideoSession,
    request: DownloadRequest,
    task_id: Seq<char>,
    events: Seq<TaskEvent>,
)
    ensures
        state_after(download_task::fresh_task(other, request, task_id), events) == (TaskView {
            session: other,
            ..state_after(download_task::fresh_task(session, request, task_id), events)
        }),
    decreases events.len(),
{
    if events.len() > 0 {
        lemma_session_is_carried(session, other, request, task_id, events.drop_last());
        lemma_state_is_true(
            download_task::fresh_task(session, request, task_id),
            events.drop_last(),
        );
    }
}

// ---------------------------------------------------------------------------------------------
// Places among the downloads
// ---------------------------------------------------------------------------------------------

/// The phases of a download that has a place among those that run at the same time.
pub open spec fn holds_slot(phase: TaskPhase) -> bool {
    !(phase is Idle) && !(phase is AwaitingSlot) && !(phase is Ended)
}

/// A step that waits for a place or does nothing, and that reports at most that the download waits.
pub open spec fn only_waits(step: TaskStepView) -> bool {
    &&& step.action is AwaitSlot || step.action is Nothing
    &&& step.report matches Some(report) ==> report.stage == "queued"@
}

/// A step that waits for a place, ends or does nothing, and that reports at most that the download
/// waits or has failed.
pub open spec fn waits_or_fails(step: TaskStepView) -> bool {
    &&& step.action is AwaitSlot || step.action is End || step.action is Nothing
    &&& step.report matches Some(report) ==> report.stage == "queued"@ || report.stage == "failed"@
}

proof fn lemma_phase_without_slot(start: TaskView, events: Seq<TaskEvent>)
    requires
        start.phase is Idle,
        forall|i: int| 0 <= i < events.len() ==> !(#[trigger] events[i] is SlotGranted),
    ensures
        !holds_slot(state_after(start, events).phase),
    decreases events.len(),
{
    if events.len() > 0 {
        let earlier = events.drop_last();
        assert forall|i: int| 0 <= i < earlier.len() implies !(
        #[trigger] earlier[i] is SlotGranted) by {
            assert(!(events[i] is SlotGranted));
        }
        lemma_phase_without_slot(start, earlier);
        assert(!(events[events.len() - 1] is SlotGranted));
    }
}

/// A download that is given no place stays idle, waits or has ended: it makes no request and writes
/// no file, and it reports at most that it waits or has failed.
pub proof fn law_nothing_is_done_without_a_slot(
    session: VideoSession,
    request: DownloadRequest,
    task_id: Seq<char>,
    events: Seq<TaskEvent>,
)
    requires
        forall|i: int| 0 <= i < events.len() ==> !(#[trigger] events[i] is SlotGranted),
    ensures
        ({
            let start = download_task::fresh_task(session, request, task_id);
            &&& !holds_slot(state_after(start, events).phase)
            &&& forall|i: int|
                0 <= i < events.len() ==> waits_or_fails(#[trigger] step_at(start, events, i))
        }),
{
    let start = download_task::fresh_task(session, request, task_id);
    lemma_phase_without_slot(start, events);
    assert forall|i: int| 0 <= i < events.len() implies waits_or_fails(
        #[trigger] step_at(start, events, i),
    ) by {
        let earlier = events.take(i);
        assert forall|k: int| 0 <= k < earlier.len() implies !(
        #[trigger] earlier[k] is SlotGranted) by {
            assert(!(events[k] is SlotGranted));
        }
        lemma_phase_without_slot(start, earlier);
        assert(!(events[i] is SlotGranted));
    }
}

proof fn lemma_waiting_since(start: TaskView, events: Seq<TaskEvent>, n: int)
    requires
        0 <= n <= events.len(),
        state_after(start, events).phase is Idle || state_after(start, events).phase
            is AwaitingSlot,
    ensures
        state_after(start, events.take(n)).phase is Idle || state_after(start, events.take(n)).phase
            is AwaitingSlot,
    decreases events.len(),
{
    if n == events.len() {
        assert(events.take(n) == events);
    } else {
        lemma_waiting_since(start, events.drop_last(), n);
        assert(events.drop_last().take(n) == events.take(n));
    }
}

/// A download that still waits for a place has done nothing but wait, and has reported at most that
/// it waits.
pub proof fn law_waiting_tasks_have_only_waited(
    session: VideoSession,
    request: DownloadRequest,
    task_id: Seq<char>,
    events: Seq<TaskEvent>,
)
    requires
        ({
            let state = state_after(download_task::fresh_task(session, request, task_id), events);
            state.phase is Idle || state.phase is AwaitingSlot
        }),
    ensures
        forall|i: int|
            0 <= i < events.len() ==> only_waits(
                #[trigger] step_at(
                    download_task::fresh_task(session, request, task_id),
                    events,
                    i,
                ),
            ),
{
    let start = download_task::fresh_task(session, request, task_id);
    assert forall|i: int| 0 <= i < events.len() implies only_waits(
        #[trigger] step_at(start, events, i),
    ) by {
        lemma_waiting_since(start, events, i);
        lemma_waiting_since(start, events, i + 1);
        let next = events.take(i + 1);
        assert(next.drop_last() == events.take(i));
        assert(next.last() == events[i]);
    }
}

/// How many downloads have a place.
pub open spec fn running(tasks: Seq<TaskView>) -> nat
    decreases tasks.len(),
{
    if tasks.len() == 0 {
        0
    } else if holds_slot(tasks.last().phase) {
        running(tasks.drop_last()) + 1
    } else {
        running(tasks.drop_last())
    }
}

/// Several downloads after events, each of which happens to the one that it names.
pub open spec fn tasks_after(tasks: Seq<TaskView>, events: Seq<(int, TaskEvent)>) -> Seq<TaskView>
    decreases events.len(),
{
    if events.len() == 0 {
        tasks
    } else {
        let before = tasks_after(tasks, events.drop_last());
        let (k, event) = events.last();
        if 0 <= k < before.len() {
            before.update(k, download_task::task_step(before[k], event).0)
        } else {
            before
        }
    }
}

/// Whether a place is only ever given while fewer downloads than there are places have one.
pub open spec fn slots_are_kept(tasks: Seq<TaskView>, events: Seq<(int, TaskEvent)>) -> bool
    decreases events.len(),
{
    events.len() > 0 ==> {
        &&& slots_are_kept(tasks, events.drop_last())
        &&& events.last().1 is SlotGranted ==> running(tasks_after(tasks, events.drop_last()))
            < download_task::DOWNLOAD_SLOTS
    }
}

/// The events that happen to the download at `k`, in order.
pub open spec fn events_of(events: Seq<(int, TaskEvent)>, k: int) -> Seq<TaskEvent>
    decreases events.len(),
{
    if events.len() == 0 {
        Seq::empty()
    } else if events.last().0 == k {
        events_of(events.drop_last(), k).push(events.last().1)
    } else {
        events_of(events.drop_last(), k)
    }
}

proof fn lemma_running_after_update(tasks: Seq<TaskView>, k: int, task: TaskView)
    requires
        0 <= k < tasks.len(),
    ensures
        running(tasks.update(k, task)) + (if holds_slot(tasks[k].phase) {
            1int
        } else {
            0
        }) == running(tasks) + (if holds_slot(task.phase) {
            1int
        } else {
            0
        }),
    decreases tasks.len(),
{
    let updated = tasks.update(k, task);
    if k == tasks.len() - 1 {
        assert(updated.drop_last() == tasks.drop_last());
    } else {
        lemma_running_after_update(tasks.drop_last(), k, task);
        assert(updated.drop_last() == tasks.drop_last().update(k, task));
    }
}

proof fn lemma_none_runs(tasks: Seq<TaskView>)
    requires
        forall|k: int| 0 <= k < tasks.len() ==> (#[trigger] tasks[k]).phase is Idle,
    ensures
        running(tasks) == 0,
    decreases tasks.len(),
{
    if tasks.len() > 0 {
        let fewer = tasks.drop_last();
        assert forall|k: int| 0 <= k < fewer.len() implies (#[trigger] fewer[k]).phase is Idle by {
            assert(tasks[k].phase is Idle);
        }
        lemma_none_runs(fewer);
        assert(tasks[tasks.len() - 1].phase is Idle);
    }
}

/// However many downloads were begun and in whatever order things happen to them, at most two are
/// past the queue, as long as places are given only while one is free.
pub proof fn law_two_lessons_at_once(tasks: Seq<TaskView>, events: Seq<(int, TaskEvent)>)
    requires
        forall|k: int| 0 <= k < tasks.len() ==> (#[trigger] tasks[k]).phase is Idle,
        slots_are_kept(tasks, events),
    ensures
        running(tasks_after(tasks, events)) <= 2,
    decreases events.len(),
{
    if events.len() == 0 {
        lemma_none_runs(tasks);
    } else {
        law_two_lessons_at_once(tasks, events.drop_last());
        let before = tasks_after(tasks, events.drop_last());
        let (k, event) = events.last();
        if 0 <= k < before.len() {
            lemma_running_after_update(
                before,
                k,
                download_task::task_step(before[k], event).0,
            );
        }
    }
}

/// Downloads do not touch each other: each is where its own events lead it.
pub proof fn law_tasks_are_independent(
    tasks: Seq<TaskView>,
    events: Seq<(int, TaskEvent)>,
    k: int,
)
    requires
        0 <= k < tasks.len(),
    ensures
        tasks_after(tasks, events).len() == tasks.len(),
        tasks_after(tasks, events)[k] == state_after(tasks[k], events_of(events, k)),
    decreases events.len(),
{
    if events.len() > 0 {
        law_tasks_are_independent(tasks, events.drop_last(), k);
        let own = events_of(events, k);
        if events.last().0 == k {
            assert(own.drop_last() == events_of(events.drop_last(), k));
        }
    }
}

} // verus!
