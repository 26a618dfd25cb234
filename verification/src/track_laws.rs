//! What holds of every course that the download of a track takes.

use vstd::prelude::*;

use crate::endpoints;
use crate::naming;
use crate::track_download;
use crate::track_download::{TrackActionView, TrackEventView, TrackPhase, TrackStepView, TrackView};

verus! {

/// The download after a sequence of events.
pub open spec fn state_after(start: TrackView, events: Seq<TrackEventView>) -> TrackView
    decreases events.len(),
{
    if events.len() == 0 {
        start
    } else {
        track_download::track_step(state_after(start, events.drop_last()), events.last()).0
    }
}

/// What comes of the event at `i`.
pub open spec fn step_at(start: TrackView, events: Seq<TrackEventView>, i: int) -> TrackStepView {
    track_download::track_step(state_after(start, events.take(i)), events[i]).1
}

/// Whether the sizes that the events bring can be counted.
pub open spec fn sizes_fit(start: TrackView, events: Seq<TrackEventView>) -> bool
    decreases events.len(),
{
    events.len() > 0 ==> {
        &&& sizes_fit(start, events.drop_last())
        &&& track_download::sizes_fit(state_after(start, events.drop_last()), events.last())
    }
}

/// A download that has only been started.
pub open spec fn is_fresh(state: TrackView) -> bool {
    state.phase is Idle && state.existing == 0 && !state.resumed && state.downloaded == 0
        && state.total is None && state.pending == 0
}

/// What the unfinished file holds after a sequence of events, in bytes: what was measured, nothing
/// once the file is opened anew, and what is written afterwards.
pub open spec fn part_size(start: TrackView, events: Seq<TrackEventView>) -> int
    decreases events.len(),
{
    if events.len() == 0 {
        0
    } else {
        let earlier = events.drop_last();
        let state = state_after(start, earlier);
        match (state.phase, events.last()) {
            (TrackPhase::MeasuringPart, TrackEventView::PartMeasured(size)) => {
                track_download::known_size(size) as int
            },
            (TrackPhase::OpeningPart, TrackEventView::PartOpened) => if state.resumed {
                part_size(start, earlier)
            } else {
                0
            },
            (TrackPhase::WritingChunk, TrackEventView::ChunkWritten) => part_size(start, earlier)
                + state.pending,
            _ => part_size(start, earlier),
        }
    }
}

/// How far a phase is on the way from the start to the end.
pub open spec fn rank(phase: TrackPhase) -> int {
    match phase {
        TrackPhase::Idle => 0,
        TrackPhase::CheckingFile => 1,
        TrackPhase::MeasuringPart => 2,
        TrackPhase::RequestingOfficial => 3,
        TrackPhase::RequestingFallback => 4,
        TrackPhase::OpeningPart => 5,
        TrackPhase::ReadingChunk => 6,
        TrackPhase::WritingChunk => 6,
        TrackPhase::Flushing => 7,
        TrackPhase::Renaming => 8,
        TrackPhase::Done => 9,
        TrackPhase::Failed => 9,
    }
}

/// What the state says of the file.
spec fn state_is_true(state: TrackView, part: int) -> bool {
    &&& (state.phase is RequestingOfficial || state.phase is RequestingFallback
        || state.phase is OpeningPart) ==> part == state.existing
    &&& state.phase is OpeningPart ==> state.downloaded == if state.resumed {
        part
    } else {
        0
    }
    &&& (state.phase is ReadingChunk || state.phase is WritingChunk || state.phase is Flushing
        || state.phase is Renaming) ==> state.downloaded == part
}

proof fn lemma_state_is_true(start: TrackView, events: Seq<TrackEventView>)
    requires
        is_fresh(start),
        sizes_fit(start, events),
    ensures
        state_is_true(state_after(start, events), part_size(start, events)),
    decreases events.len(),
{
    if events.len() > 0 {
        lemma_state_is_true(start, events.drop_last());
    }
}

/// The stages of reports can be told apart.
proof fn lemma_stage_names()
    ensures
        "completed"@ != "downloading"@,
{
    reveal_strlit("completed");
    reveal_strlit("downloading");
    assert("completed"@.len() == 9);
    assert("downloading"@.len() == 11);
}

proof fn lemma_fit_prefix(start: TrackView, events: Seq<TrackEventView>, n: int)
    requires
        sizes_fit(start, events),
        0 <= n <= events.len(),
    ensures
        sizes_fit(start, events.take(n)),
    decreases events.len(),
{
    if n == events.len() {
        assert(events.take(n) == events);
    } else {
        lemma_fit_prefix(start, events.drop_last(), n);
        assert(events.drop_last().take(n) == events.take(n));
    }
}

/// What is reported while a track is downloaded is what the file holds, and the size that is
/// reported in the end is the size of the finished file.
pub proof fn law_reports_tell_what_the_file_holds(
    start: TrackView,
    events: Seq<TrackEventView>,
    n: int,
)
    requires
        is_fresh(start),
        sizes_fit(start, events),
        0 <= n < events.len(),
    ensures
        step_at(start, events, n).report matches Some(report) ==> {
            let part = part_size(start, events.take(n + 1));
            &&& report.stage == "downloading"@ ==> report.downloaded == part
            &&& report.stage == "completed"@ && events[n] is Renamed ==> report.downloaded == part
                && report.total == Some(report.downloaded)
        },
{
    lemma_stage_names();
    let now = events.take(n + 1);
    assert(now.drop_last() == events.take(n));
    assert(now.last() == events[n]);
    lemma_fit_prefix(start, events, n + 1);
    lemma_state_is_true(start, events.take(n));
    lemma_state_is_true(start, now);
}

/// A track is reported as complete only where its file is there: it was found, or it has just been
/// given its name. The download is then done and has succeeded.
pub proof fn law_complete_means_there(state: TrackView, event: TrackEventView)
    requires
        track_download::track_step(state, event).1.report matches Some(report) && report.stage
            == "completed"@,
    ensures
        event is FileFound || event is Renamed,
        track_download::track_step(state, event).0.phase is Done,
        track_download::track_step(state, event).1.action is Succeed,
{
    lemma_stage_names();
}

/// A download succeeds only with the report that the track is complete, and a failed one is not
/// reported: whoever started it tells the user.
pub proof fn law_success_is_reported(state: TrackView, event: TrackEventView)
    ensures
        ({
            let step = track_download::track_step(state, event).1;
            &&& step.action is Succeed ==> (step.report matches Some(report) && report.stage
                == "completed"@)
            &&& step.action is Fail ==> step.report is None
        }),
{
}

/// A download that is done or has failed stays as it is, and nothing more is done or reported.
pub proof fn law_finished_downloads_stay_finished(state: TrackView, events: Seq<TrackEventView>)
    requires
        state.phase is Done || state.phase is Failed,
    ensures
        state_after(state, events) == state,
        forall|i: int|
            0 <= i < events.len() ==> #[trigger] step_at(state, events, i) == track_download::quiet(
                TrackActionView::Nothing,
            ),
    decreases events.len(),
{
    if events.len() > 0 {
        let earlier = events.drop_last();
        law_finished_downloads_stay_finished(state, earlier);
        assert forall|i: int| 0 <= i < events.len() implies #[trigger] step_at(state, events, i)
            == track_download::quiet(TrackActionView::Nothing) by {
            if i < earlier.len() {
                assert(earlier.take(i) == events.take(i));
                assert(step_at(state, earlier, i) == track_download::quiet(
                    TrackActionView::Nothing,
                ));
            } else {
                assert(events.take(i) == earlier);
            }
        }
    }
}

proof fn lemma_rank_grows(start: TrackView, events: Seq<TrackEventView>, i: int)
    requires
        0 <= i <= events.len(),
    ensures
        rank(state_after(start, events.take(i)).phase) <= rank(state_after(start, events).phase),
    decreases events.len() - i,
{
    if i == events.len() {
        assert(events.take(i) == events);
    } else {
        lemma_rank_grows(start, events, i + 1);
        let next = events.take(i + 1);
        assert(next.drop_last() == events.take(i));
        assert(next.last() == events[i]);
    }
}

proof fn lemma_downloaded_grows(start: TrackView, events: Seq<TrackEventView>, i: int)
    requires
        sizes_fit(start, events),
        0 <= i <= events.len(),
        rank(state_after(start, events.take(i)).phase) >= 6,
    ensures
        state_after(start, events.take(i)).downloaded <= state_after(start, events).downloaded,
    decreases events.len(),
{
    if i == events.len() {
        assert(events.take(i) == events);
    } else {
        let earlier = events.drop_last();
        assert(earlier.take(i) == events.take(i));
        lemma_downloaded_grows(start, earlier, i);
        lemma_rank_grows(start, earlier, i);
    }
}

/// What is reported while a track is downloaded never shrinks.
pub proof fn law_progress_grows(start: TrackView, events: Seq<TrackEventView>, i: int, j: int)
    requires
        sizes_fit(start, events),
        0 <= i < j < events.len(),
        step_at(start, events, i).report matches Some(report) && report.stage == "downloading"@,
        step_at(start, events, j).report is Some,
    ensures
        (step_at(start, events, i).report->0).downloaded <= (step_at(
            start,
            events,
            j,
        ).report->0).downloaded,
{
    lemma_stage_names();
    let next = events.take(i + 1);
    assert(next.drop_last() == events.take(i));
    assert(next.last() == events[i]);
    let later = events.take(j);
    assert(later.take(i + 1) == next);
    assert(state_after(start, next).phase is ReadingChunk);
    lemma_fit_prefix(start, events, j);
    lemma_rank_grows(start, later, i + 1);
    lemma_downloaded_grows(start, later, i + 1);
    lemma_fit_prefix(start, events, j + 1);
    let last = events.take(j + 1);
    assert(last.drop_last() == later);
    assert(last.last() == events[j]);
}

/// A download makes at most two requests: one to the official address, and one to the address that
/// the track names, which follows the first.
pub proof fn law_two_requests_at_most(start: TrackView, events: Seq<TrackEventView>, i: int, j: int)
    requires
        0 <= i < j < events.len(),
    ensures
        !(step_at(start, events, i).action is RequestOfficial && step_at(start, events, j).action
            is RequestOfficial),
        !(step_at(start, events, i).action is RequestFallback && step_at(start, events, j).action
            is RequestFallback),
        !(step_at(start, events, i).action is RequestFallback && step_at(start, events, j).action
            is RequestOfficial),
{
    let next = events.take(i + 1);
    assert(next.drop_last() == events.take(i));
    assert(next.last() == events[i]);
    let later = events.take(j);
    assert(later.take(i + 1) == next);
    lemma_rank_grows(start, later, i + 1);
}

/// Nothing is appended to a file that was empty or missing, and a request asks for the rest of a
/// file exactly where there is something to continue.
pub proof fn law_only_what_is_there_is_continued(state: TrackView, event: TrackEventView)
    ensures
        track_download::track_step(state, event).1.action matches TrackActionView::OpenPart {
            append,
            ..
        } ==> (append ==> state.existing > 0),
        track_download::track_step(state, event).1.action
            matches TrackActionView::RequestOfficial { range, .. } ==> (range is Some
            <==> track_download::track_step(state, event).0.existing > 0) && (range is Some
            ==> range == Some(
            endpoints::range_from(track_download::track_step(state, event).0.existing as nat),
        )),
{
}

/// A download only ever touches its own two files: the file of the track and the unfinished one
/// beside it, whatever happens.
pub proof fn law_own_files_only(start: TrackView, events: Seq<TrackEventView>, n: int)
    requires
        0 <= n < events.len(),
    ensures
        match step_at(start, events, n).action {
            TrackActionView::CheckFile { file_name } => file_name == start.file_name,
            TrackActionView::MeasurePart { file_name } => file_name == naming::partial_name(
                start.file_name,
            ),
            TrackActionView::OpenPart { file_name, .. } => file_name == naming::partial_name(
                start.file_name,
            ),
            TrackActionView::Rename { from, to } => from == naming::partial_name(start.file_name)
                && to == start.file_name,
            _ => true,
        },
        step_at(start, events, n).report matches Some(report) ==> report.file_name
            == start.file_name && report.task_id == start.task_id && report.lesson_id
            == start.lesson_id,
{
    lemma_names_stay(start, events.take(n));
}

proof fn lemma_names_stay(start: TrackView, events: Seq<TrackEventView>)
    ensures
        ({
            let state = state_after(start, events);
            state.file_name == start.file_name && state.task_id == start.task_id && state.lesson_id
                == start.lesson_id
        }),
    decreases events.len(),
{
    if events.len() > 0 {
        lemma_names_stay(start, events.drop_last());
    }
}

/// The action without the token that it carries.
pub open spec fn without_token(action: TrackActionView) -> TrackActionView {
    match action {
        TrackActionView::RequestOfficial { url, range, .. } => TrackActionView::RequestOfficial {
            url,
            token: Seq::empty(),
            range,
        },
        _ => action,
    }
}

/// The token is neither told nor kept: two downloads that differ in nothing but their tokens give
/// the same reports and do the same, but for the token that the official request carries.
pub proof fn law_tokens_are_not_told(
    start: TrackView,
    token: Seq<char>,
    events: Seq<TrackEventView>,
    n: int,
)
    requires
        0 <= n < events.len(),
    ensures
        ({
            let a = step_at(start, events, n);
            let b = step_at(TrackView { token, ..start }, events, n);
            &&& a.report == b.report
            &&& without_token(a.action) == without_token(b.action)
            &&& !(a.action is RequestOfficial) ==> a.action == b.action
        }),
{
    lemma_token_is_carried(start, token, events.take(n));
}

proof fn lemma_token_is_carried(start: TrackView, token: Seq<char>, events: Seq<TrackEventView>)
    ensures
        state_after(TrackView { token, ..start }, events) == (TrackView {
            token,
            ..state_after(start, events)
        }),
    decreases events.len(),
{
    if events.len() > 0 {
        lemma_token_is_carried(start, token, events.drop_last());
    }
}

/// The action without the address that the fallback request goes to.
pub open spec fn without_fallback(action: TrackActionView) -> TrackActionView {
    match action {
        TrackActionView::RequestFallback { .. } => TrackActionView::RequestFallback {
            url: Seq::empty(),
        },
        _ => action,
    }
}

/// The signed address of a track is neither told nor kept: two downloads that differ in nothing but
/// that address give the same reports and do the same, but for where the fallback request goes.
pub proof fn law_signed_addresses_are_not_told(
    start: TrackView,
    fallback_url: Seq<char>,
    events: Seq<TrackEventView>,
    n: int,
)
    requires
        0 <= n < events.len(),
    ensures
        ({
            let a = step_at(start, events, n);
            let b = step_at(TrackView { fallback_url, ..start }, events, n);
            &&& a.report == b.report
            &&& without_fallback(a.action) == without_fallback(b.action)
            &&& !(a.action is RequestFallback) ==> a.action == b.action
        }),
{
    lemma_fallback_is_carried(start, fallback_url, events.take(n));
}

proof fn lemma_fallback_is_carried(
    start: TrackView,
    fallback_url: Seq<char>,
    events: Seq<TrackEventView>,
)
    ensures
        state_after(TrackView { fallback_url, ..start }, events) == (TrackView {
            fallback_url,
            ..state_after(start, events)
        }),
    decreases events.len(),
{
    if events.len() > 0 {
        lemma_fallback_is_carried(start, fallback_url, events.drop_last());
    }
}

} // verus!
