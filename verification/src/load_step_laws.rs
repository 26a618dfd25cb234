//! What one event does to the reading of the lessons of a course, said of what the event brings.

use vstd::prelude::*;

use crate::api;
use crate::api::{ApiEnvelope, ExchangeData, LessonPage, VideoSession};
use crate::endpoints;
use crate::lesson_loading;
use crate::lesson_loading::{LoadActionView, LoadEvent, LoadPhase, LoadView};
use crate::lessons;
use crate::navigation;
use crate::text;

verus! {

/// Whether an event leads to another phase and an action, and changes nothing else.
pub open spec fn only_does(
    before: LoadView,
    event: LoadEvent,
    phase: LoadPhase,
    action: LoadActionView,
) -> bool {
    lesson_loading::load_step(before, event) == (LoadView { phase, ..before }, action)
}

/// Whether an event makes the reading fail with a message.
pub open spec fn fails(before: LoadView, event: LoadEvent, message: Seq<char>) -> bool {
    only_does(before, event, LoadPhase::Ended, LoadActionView::Fail(message))
}

/// The login window is sent to the page of the course from which the video service is entered, and
/// its address is read from then on, again after each pause.
pub proof fn law_the_course_is_entered(state: LoadView, message: String)
    ensures
        state.phase is Idle ==> only_does(
            state,
            LoadEvent::Begin,
            LoadPhase::Navigating,
            LoadActionView::Navigate {
                url: "https://oc.sjtu.edu.cn/courses/"@ + text::decimal(state.course_id as nat)
                    + "/external_tools/8329?display=borderless"@,
            },
        ) && fails(state, LoadEvent::WindowMissing, "请先完成扫码登录"@),
        state.phase is Navigating ==> only_does(
            state,
            LoadEvent::Navigated,
            LoadPhase::ReadingAddress,
            LoadActionView::ReadAddress,
        ) && fails(state, LoadEvent::NotNavigated(message), message@),
        state.phase is Pausing ==> only_does(
            state,
            LoadEvent::Paused,
            LoadPhase::ReadingAddress,
            LoadActionView::ReadAddress,
        ),
{
}

/// Within thirty-five seconds, an address that carries a token is cleared of it and the token is
/// kept; one that carries none is read again later; one that cannot be read makes the reading fail.
/// After that time the reading fails.
pub proof fn law_the_token_is_waited_for(
    state: LoadView,
    elapsed: u128,
    current: Result<navigation::WebUrl, String>,
)
    requires
        state.phase is ReadingAddress,
    ensures
        ({
            let event = LoadEvent::AddressRead { elapsed, current };
            &&& elapsed > 35_000_000_000 ==> fails(
                state,
                event,
                "课堂视频授权超时，请重新选择课程"@,
            )
            &&& elapsed <= 35_000_000_000 ==> match current {
                Err(message) => fails(state, event, message@),
                Ok(url) => match navigation::token_of(url@) {
                    Some(token_id) => lesson_loading::load_step(state, event) == (
                        LoadView { phase: LoadPhase::ClearingAddress, token_id, ..state },
                        LoadActionView::ClearAddress {
                            url: "https://v.sjtu.edu.cn/jy-application-canvas-sjtu-ui/"@,
                        },
                    ),
                    None => only_does(
                        state,
                        event,
                        LoadPhase::Pausing,
                        LoadActionView::Pause,
                    ),
                },
            }
        }),
{
}

/// Once the address is cleared, a session is asked for with the token that was found, character for
/// character.
pub proof fn law_the_token_is_used(state: LoadView, message: String)
    requires
        state.phase is ClearingAddress,
    ensures
        lesson_loading::load_step(state, LoadEvent::AddressCleared).1 == (
        LoadActionView::RequestSession { token_id: state.token_id }),
        ({
            let after = lesson_loading::load_step(state, LoadEvent::AddressCleared).0;
            &&& after.phase is OpeningSession
            &&& after.course_id == state.course_id && after.session == state.session
                && after.lessons == state.lessons
        }),
        fails(state, LoadEvent::AddressNotCleared(message), message@),
{
}

/// The session that the video service opens is kept as it is, and the lessons are asked for with its
/// token and the encoded number of its course. An answer without one is told.
pub proof fn law_the_session_is_opened(
    state: LoadView,
    envelope: ApiEnvelope<ExchangeData>,
    cause: String,
)
    requires
        state.phase is OpeningSession,
    ensures
        envelope.data matches Some(data) ==> lesson_loading::load_step(
            state,
            LoadEvent::SessionAnswered(envelope),
        ) == (
            LoadView {
                phase: LoadPhase::ReadingLessons,
                session: Some(VideoSession { token: data.token, params: data.params }),
                ..state
            },
            LoadActionView::RequestLessons {
                token: data.token@,
                course_id: endpoints::url_encoded(data.params.cour_id@),
            },
        ),
        envelope.data is None ==> fails(
            state,
            LoadEvent::SessionAnswered(envelope),
            api::refusal_text(
                text::option_view(envelope.message),
                envelope.status,
                "视频授权失败"@,
            ),
        ),
        fails(state, LoadEvent::ClientFailed(cause), cause@),
        fails(
            state,
            LoadEvent::SessionNotRequested(cause),
            "视频授权失败"@ + "："@ + cause@,
        ),
        fails(
            state,
            LoadEvent::SessionNotUnderstood(cause),
            "视频授权响应异常"@ + "："@ + cause@,
        ),
{
}

/// The list of lessons leads to the session being kept, as it is, and then to the open lessons of
/// the list being shown, all of them and in order. An answer without a list is told.
pub proof fn law_the_lessons_are_read(
    state: LoadView,
    envelope: ApiEnvelope<LessonPage>,
    cause: String,
)
    requires
        state.phase is ReadingLessons,
        state.session is Some,
    ensures
        envelope.data matches Some(page) ==> lesson_loading::load_step(
            state,
            LoadEvent::LessonsAnswered(envelope),
        ) == (
            LoadView {
                phase: LoadPhase::KeepingSession,
                session: None,
                lessons: lessons::open_views(
                    lessons::lessons_of(lessons::record_nodes(page.records@)),
                ),
                ..state
            },
            LoadActionView::KeepSession(state.session->0),
        ),
        envelope.data is None ==> fails(
            state,
            LoadEvent::LessonsAnswered(envelope),
            api::refusal_text(
                text::option_view(envelope.message),
                envelope.status,
                "读取讲次失败"@,
            ),
        ),
        fails(state, LoadEvent::ClientFailed(cause), cause@),
        fails(
            state,
            LoadEvent::LessonsNotRequested(cause),
            "读取讲次失败"@ + "："@ + cause@,
        ),
        fails(
            state,
            LoadEvent::LessonsNotUnderstood(cause),
            "讲次响应异常"@ + "："@ + cause@,
        ),
{
}

/// Once the session is kept, all lessons that were read are shown.
pub proof fn law_the_lessons_are_shown(state: LoadView)
    requires
        state.phase is KeepingSession,
    ensures
        lesson_loading::load_step(state, LoadEvent::SessionKept).1 == LoadActionView::Show(
            state.lessons,
        ),
        lesson_loading::load_step(state, LoadEvent::SessionKept).0.phase is Ended,
        fails(state, LoadEvent::SessionNotKept, "会话状态不可用"@),
{
}

/// What the reading waits for in each phase.
pub open spec fn is_awaited(phase: LoadPhase, event: LoadEvent) -> bool {
    match phase {
        LoadPhase::Idle => event is Begin || event is WindowMissing,
        LoadPhase::Navigating => event is Navigated || event is NotNavigated,
        LoadPhase::ReadingAddress => event is AddressRead,
        LoadPhase::Pausing => event is Paused,
        LoadPhase::ClearingAddress => event is AddressCleared || event is AddressNotCleared,
        LoadPhase::OpeningSession => event is SessionAnswered || event is SessionNotRequested
            || event is SessionNotUnderstood || event is ClientFailed,
        LoadPhase::ReadingLessons => event is LessonsAnswered || event is LessonsNotRequested
            || event is LessonsNotUnderstood || event is ClientFailed,
        LoadPhase::KeepingSession => event is SessionKept || event is SessionNotKept,
        LoadPhase::Ended => false,
    }
}

/// What the reading does not wait for changes nothing, and nothing is done.
pub proof fn law_nothing_else_changes_a_reading(state: LoadView, event: LoadEvent)
    requires
        !is_awaited(state.phase, event),
    ensures
        lesson_loading::load_step(state, event) == (state, LoadActionView::Nothing),
{
}

} // verus!
