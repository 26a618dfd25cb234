//! Reading the lessons of a course: what is done on each event.

use vstd::prelude::*;

use crate::api;
use crate::api::{ApiEnvelope, ExchangeData, LessonPage, VideoSession};
use crate::endpoints;
use crate::failures;
use crate::failures::Failure;
use crate::lessons;
use crate::lessons::Lesson;
use crate::navigation;
use crate::navigation::{TokenPoll, WebUrl};
use crate::text;

verus! {

/// What the reading of the lessons waits for.
#[derive(Clone, Copy, Debug, PartialEq, Eq, Structural)]
pub enum LoadPhase {
    /// To be started.
    Idle,
    /// The login window to set out for the video service.
    Navigating,
    /// The address that the login window is at.
    ReadingAddress,
    /// A short time to go by.
    Pausing,
    /// The address of the login window to be cleared of the token.
    ClearingAddress,
    /// The session of the video service.
    OpeningSession,
    /// The list of lessons.
    ReadingLessons,
    /// The session to be kept for downloads.
    KeepingSession,
    /// Nothing more.
    Ended,
}

/// The reading of the lessons of a course: what it waits for, the token that was found, the session
/// of the video service and the lessons.
#[derive(Debug)]
pub struct LessonLoading {
    pub phase: LoadPhase,
    pub course_id: u64,
    pub token_id: String,
    pub session: Option<VideoSession>,
    pub lessons: Vec<Lesson>,
}

/// What a [`LessonLoading`] holds.
pub struct LoadView {
    pub phase: LoadPhase,
    pub course_id: u64,
    pub token_id: Seq<char>,
    pub session: Option<VideoSession>,
    pub lessons: Seq<lessons::LessonView>,
}

impl View for LessonLoading {
    type V = LoadView;

    open spec fn view(&self) -> LoadView {
        LoadView {
            phase: self.phase,
            course_id: self.course_id,
            token_id: self.token_id@,
            session: self.session,
            lessons: lessons::lesson_views(self.lessons@),
        }
    }
}

/// What happens to the reading of the lessons.
#[derive(Debug)]
pub enum LoadEvent {
    Begin,
    WindowMissing,
    Navigated,
    NotNavigated(String),
    AddressRead { elapsed: u128, current: Result<WebUrl, String> },
    Paused,
    AddressCleared,
    AddressNotCleared(String),
    ClientFailed(String),
    SessionAnswered(ApiEnvelope<ExchangeData>),
    SessionNotRequested(String),
    SessionNotUnderstood(String),
    LessonsAnswered(ApiEnvelope<LessonPage>),
    LessonsNotRequested(String),
    LessonsNotUnderstood(String),
    SessionKept,
    SessionNotKept,
}

/// What is to be done next for the reading of the lessons.
#[derive(Debug)]
pub enum LoadAction {
    Navigate { url: String },
    ReadAddress,
    Pause,
    ClearAddress { url: String },
    RequestSession { token_id: String },
    RequestLessons { token: String, course_id: String },
    KeepSession(VideoSession),
    Nothing,
    Show(Vec<Lesson>),
    Fail(String),
}

/// What a [`LoadAction`] holds.
pub enum LoadActionView {
    Navigate { url: Seq<char> },
    ReadAddress,
    Pause,
    ClearAddress { url: Seq<char> },
    RequestSession { token_id: Seq<char> },
    RequestLessons { token: Seq<char>, course_id: Seq<char> },
    KeepSession(VideoSession),
    Nothing,
    Show(Seq<lessons::LessonView>),
    Fail(Seq<char>),
}

impl View for LoadAction {
    type V = LoadActionView;

    open spec fn view(&self) -> LoadActionView {
        match self {
            LoadAction::Navigate { url } => LoadActionView::Navigate { url: url@ },
            LoadAction::ReadAddress => LoadActionView::ReadAddress,
            LoadAction::Pause => LoadActionView::Pause,
            LoadAction::ClearAddress { url } => LoadActionView::ClearAddress { url: url@ },
            LoadAction::RequestSession { token_id } => LoadActionView::RequestSession {
                token_id: token_id@,
            },
            LoadAction::RequestLessons { token, course_id } => LoadActionView::RequestLessons {
                token: token@,
                course_id: course_id@,
            },
            LoadAction::KeepSession(session) => LoadActionView::KeepSession(*session),
            LoadAction::Nothing => LoadActionView::Nothing,
            LoadAction::Show(lessons) => LoadActionView::Show(lessons::lesson_views(lessons@)),
            LoadAction::Fail(message) => LoadActionView::Fail(message@),
        }
    }
}

/// The reading of the lessons of a course, to be started.
pub open spec fn fresh_load(course_id: u64) -> LoadView {
    LoadView {
        phase: LoadPhase::Idle,
        course_id,
        token_id: Seq::empty(),
        session: None,
        lessons: Seq::empty(),
    }
}

/// The reading of the lessons in another phase.
pub open spec fn going_on(state: LoadView, phase: LoadPhase, action: LoadActionView) -> (
    LoadView,
    LoadActionView,
) {
    (LoadView { phase, ..state }, action)
}

/// The reading of the lessons fails.
pub open spec fn failed_with(state: LoadView, message: Seq<char>) -> (LoadView, LoadActionView) {
    going_on(state, LoadPhase::Ended, LoadActionView::Fail(message))
}

/// What the address of the login window leads to. A token that it carries is taken, and the window
/// is sent away from the address before the token is used.
pub open spec fn on_address(
    state: LoadView,
    elapsed: u128,
    current: Result<navigation::WebUrlView, Seq<char>>,
) -> (LoadView, LoadActionView) {
    match navigation::poll_result(elapsed, current) {
        navigation::TokenPollView::Failed(message) => failed_with(state, message),
        navigation::TokenPollView::Found(token_id) => (
            LoadView { phase: LoadPhase::ClearingAddress, token_id, ..state },
            LoadActionView::ClearAddress { url: endpoints::VIDEO_PAGE_URL@ },
        ),
        navigation::TokenPollView::Wait => going_on(
            state,
            LoadPhase::Pausing,
            LoadActionView::Pause,
        ),
    }
}

/// What the answer to the token leads to.
pub open spec fn on_session(state: LoadView, envelope: ApiEnvelope<ExchangeData>) -> (
    LoadView,
    LoadActionView,
) {
    match envelope.data {
        Some(data) => (
            LoadView {
                phase: LoadPhase::ReadingLessons,
                session: Some(VideoSession { token: data.token, params: data.params }),
                ..state
            },
            LoadActionView::RequestLessons {
                token: data.token@,
                course_id: endpoints::url_encoded(data.params.cour_id@),
            },
        ),
        None => failed_with(
            state,
            api::refusal_text(
                text::option_view(envelope.message),
                envelope.status,
                "视频授权失败"@,
            ),
        ),
    }
}

/// The lessons that are shown of a list of records: those whose recordings are open to students.
pub open spec fn shown_lessons(records: Seq<serde_json::Value>) -> Seq<lessons::LessonView> {
    lessons::open_views(lessons::lessons_of(lessons::record_nodes(records)))
}

/// What the list of lessons leads to.
pub open spec fn on_lessons(state: LoadView, envelope: ApiEnvelope<LessonPage>) -> (
    LoadView,
    LoadActionView,
) {
    match envelope.data {
        Some(page) => match state.session {
            Some(session) => (
                LoadView {
                    phase: LoadPhase::KeepingSession,
                    session: None,
                    lessons: shown_lessons(page.records@),
                    ..state
                },
                LoadActionView::KeepSession(session),
            ),
            None => (state, LoadActionView::Nothing),
        },
        None => failed_with(
            state,
            api::refusal_text(
                text::option_view(envelope.message),
                envelope.status,
                "读取讲次失败"@,
            ),
        ),
    }
}

/// What an event does to the reading of the lessons.
pub open spec fn load_step(state: LoadView, event: LoadEvent) -> (LoadView, LoadActionView) {
    match (state.phase, event) {
        (LoadPhase::Idle, LoadEvent::WindowMissing) => failed_with(state, "请先完成扫码登录"@),
        (LoadPhase::Idle, LoadEvent::Begin) => going_on(
            state,
            LoadPhase::Navigating,
            LoadActionView::Navigate { url: endpoints::lti_launch(state.course_id as nat) },
        ),
        (LoadPhase::Navigating, LoadEvent::NotNavigated(message)) => failed_with(state, message@),
        (LoadPhase::Navigating, LoadEvent::Navigated) => going_on(
            state,
            LoadPhase::ReadingAddress,
            LoadActionView::ReadAddress,
        ),
        (LoadPhase::ReadingAddress, LoadEvent::AddressRead { elapsed, current }) => on_address(
            state,
            elapsed,
            navigation::reading_view(current),
        ),
        (LoadPhase::Pausing, LoadEvent::Paused) => going_on(
            state,
            LoadPhase::ReadingAddress,
            LoadActionView::ReadAddress,
        ),
        (LoadPhase::ClearingAddress, LoadEvent::AddressNotCleared(message)) => failed_with(
            state,
            message@,
        ),
        (LoadPhase::ClearingAddress, LoadEvent::AddressCleared) => (
            LoadView { phase: LoadPhase::OpeningSession, token_id: Seq::empty(), ..state },
            LoadActionView::RequestSession { token_id: state.token_id },
        ),
        (LoadPhase::OpeningSession, LoadEvent::ClientFailed(message)) => failed_with(
            state,
            message@,
        ),
        (LoadPhase::OpeningSession, LoadEvent::SessionNotRequested(cause)) => failed_with(
            state,
            failures::failure_message(Failure::Authorize, cause@),
        ),
        (LoadPhase::OpeningSession, LoadEvent::SessionNotUnderstood(cause)) => failed_with(
            state,
            failures::failure_message(Failure::AuthorizeFormat, cause@),
        ),
        (LoadPhase::OpeningSession, LoadEvent::SessionAnswered(envelope)) => on_session(
            state,
            envelope,
        ),
        (LoadPhase::ReadingLessons, LoadEvent::ClientFailed(message)) => failed_with(
            state,
            message@,
        ),
        (LoadPhase::ReadingLessons, LoadEvent::LessonsNotRequested(cause)) => failed_with(
            state,
            failures::failure_message(Failure::ReadLessons, cause@),
        ),
        (LoadPhase::ReadingLessons, LoadEvent::LessonsNotUnderstood(cause)) => failed_with(
            state,
            failures::failure_message(Failure::LessonFormat, cause@),
        ),
        (LoadPhase::ReadingLessons, LoadEvent::LessonsAnswered(envelope)) => on_lessons(
            state,
            envelope,
        ),
        (LoadPhase::KeepingSession, LoadEvent::SessionNotKept) => failed_with(
            state,
            "会话状态不可用"@,
        ),
        (LoadPhase::KeepingSession, LoadEvent::SessionKept) => (
            LoadView { phase: LoadPhase::Ended, lessons: Seq::empty(), ..state },
            LoadActionView::Show(state.lessons),
        ),
        _ => (state, LoadActionView::Nothing),
    }
}

impl LessonLoading {
    /// The reading of the lessons of a course, to be started.
    pub fn new(course_id: u64) -> (r: LessonLoading)
        ensures
            r@ == fresh_load(course_id),
    {
        let r = LessonLoading {
            phase: LoadPhase::Idle,
            course_id,
            token_id: String::new(),
            session: None,
            lessons: Vec::new(),
        };
        assert(r@.lessons == Seq::<lessons::LessonView>::empty());
        r
    }

    fn go_on(&mut self, phase: LoadPhase, action: LoadAction) -> (r: LoadAction)
        ensures
            (final(self)@, r@) == going_on(old(self)@, phase, action@),
    {
        self.phase = phase;
        action
    }

    fn fail_with(&mut self, message: &str) -> (r: LoadAction)
        ensures
            (final(self)@, r@) == failed_with(old(self)@, message@),
    {
        self.go_on(LoadPhase::Ended, LoadAction::Fail(message.to_owned()))
    }

    fn fail_for(&mut self, failure: Failure, cause: &str) -> (r: LoadAction)
        ensures
            (final(self)@, r@) == failed_with(
                old(self)@,
                failures::failure_message(failure, cause@),
            ),
    {
        let message = failure.message(cause);
        self.fail_with(message.as_str())
    }

    fn take_address(&mut self, elapsed: u128, current: Result<WebUrl, String>) -> (r: LoadAction)
        ensures
            (final(self)@, r@) == on_address(
                old(self)@,
                elapsed,
                navigation::reading_view(current),
            ),
    {
        match navigation::poll_for_token(elapsed, current) {
            TokenPoll::Failed(message) => self.fail_with(message.as_str()),
            TokenPoll::Found(token_id) => {
                self.token_id = token_id;
                let url = endpoints::VIDEO_PAGE_URL.to_owned();
                self.go_on(LoadPhase::ClearingAddress, LoadAction::ClearAddress { url })
            },
            TokenPoll::Wait => self.go_on(LoadPhase::Pausing, LoadAction::Pause),
        }
    }

    fn take_session(&mut self, envelope: ApiEnvelope<ExchangeData>) -> (r: LoadAction)
        ensures
            (final(self)@, r@) == on_session(old(self)@, envelope),
    {
        match api::open_session(envelope) {
            Ok(session) => {
                let token = session.token.clone();
                let course_id = endpoints::url_encode(session.params.cour_id.as_str());
                self.session = Some(session);
                self.go_on(
                    LoadPhase::ReadingLessons,
                    LoadAction::RequestLessons { token, course_id },
                )
            },
            Err(message) => self.fail_with(message.as_str()),
        }
    }

    fn take_lessons(&mut self, envelope: ApiEnvelope<LessonPage>) -> (r: LoadAction)
        ensures
            (final(self)@, r@) == on_lessons(old(self)@, envelope),
    {
        match api::data_or_error(envelope, "读取讲次失败") {
            Ok(page) => match self.session.take() {
                Some(session) => {
                    let all = lessons::lessons_from_records(page.records);
                    self.lessons = lessons::open_lessons(all);
                    self.go_on(LoadPhase::KeepingSession, LoadAction::KeepSession(session))
                },
                None => LoadAction::Nothing,
            },
            Err(message) => self.fail_with(message.as_str()),
        }
    }

    /// Takes an event: what is to be done next. An event that is not waited for changes nothing.
    pub fn step(&mut self, event: LoadEvent) -> (r: LoadAction)
        ensures
            (final(self)@, r@) == load_step(old(self)@, event),
    {
        match (self.phase, event) {
            (LoadPhase::Idle, LoadEvent::WindowMissing) => self.fail_with("请先完成扫码登录"),
            (LoadPhase::Idle, LoadEvent::Begin) => {
                let url = endpoints::lti_launch_url(self.course_id);
                self.go_on(LoadPhase::Navigating, LoadAction::Navigate { url })
            },
            (LoadPhase::Navigating, LoadEvent::NotNavigated(message)) => self.fail_with(
                message.as_str(),
            ),
            (LoadPhase::Navigating, LoadEvent::Navigated) => self.go_on(
                LoadPhase::ReadingAddress,
                LoadAction::ReadAddress,
            ),
            (LoadPhase::ReadingAddress, LoadEvent::AddressRead { elapsed, current }) => {
                self.take_address(elapsed, current)
            },
            (LoadPhase::Pausing, LoadEvent::Paused) => self.go_on(
                LoadPhase::ReadingAddress,
                LoadAction::ReadAddress,
            ),
            (LoadPhase::ClearingAddress, LoadEvent::AddressNotCleared(message)) => self.fail_with(
                message.as_str(),
            ),
            (LoadPhase::ClearingAddress, LoadEvent::AddressCleared) => {
                let mut token_id: String = String::new();
                std::mem::swap(&mut token_id, &mut self.token_id);
                self.go_on(
                    LoadPhase::OpeningSession,
                    LoadAction::RequestSession { token_id },
                )
            },
            (LoadPhase::OpeningSession, LoadEvent::ClientFailed(message)) => self.fail_with(
                message.as_str(),
            ),
            (LoadPhase::OpeningSession, LoadEvent::SessionNotRequested(cause)) => self.fail_for(
                Failure::Authorize,
                cause.as_str(),
            ),
            (LoadPhase::OpeningSession, LoadEvent::SessionNotUnderstood(cause)) => self.fail_for(
                Failure::AuthorizeFormat,
                cause.as_str(),
            ),
            (LoadPhase::OpeningSession, LoadEvent::SessionAnswered(envelope)) => self.take_session(
                envelope,
            ),
            (LoadPhase::ReadingLessons, LoadEvent::ClientFailed(message)) => self.fail_with(
                message.as_str(),
            ),
            (LoadPhase::ReadingLessons, LoadEvent::LessonsNotRequested(cause)) => self.fail_for(
                Failure::ReadLessons,
                cause.as_str(),
            ),
            (LoadPhase::ReadingLessons, LoadEvent::LessonsNotUnderstood(cause)) => self.fail_for(
                Failure::LessonFormat,
                cause.as_str(),
            ),
            (LoadPhase::ReadingLessons, LoadEvent::LessonsAnswered(envelope)) => self.take_lessons(
                envelope,
            ),
            (LoadPhase::KeepingSession, LoadEvent::SessionNotKept) => self.fail_with(
                "会话状态不可用",
            ),
            (LoadPhase::KeepingSession, LoadEvent::SessionKept) => {
                let mut found: Vec<Lesson> = Vec::new();
                std::mem::swap(&mut found, &mut self.lessons);
                self.phase = LoadPhase::Ended;
                assert(self@.lessons == Seq::<lessons::LessonView>::empty());
                LoadAction::Show(found)
            },
            _ => LoadAction::Nothing,
        }
    }
}

// ---------------------------------------------------------------------------------------------
// Laws
// ---------------------------------------------------------------------------------------------

/// The reading of the lessons after a sequence of events.
pub open spec fn state_after(start: LoadView, events: Seq<LoadEvent>) -> LoadView
    decreases events.len(),
{
    if events.len() == 0 {
        start
    } else {
        load_step(state_after(start, events.drop_last()), events.last()).0
    }
}

/// What is done on the event at `i`.
pub open spec fn action_at(start: LoadView, events: Seq<LoadEvent>, i: int) -> LoadActionView {
    load_step(state_after(start, events.take(i)), events[i]).1
}

/// The session that an answer of the video service opens.
pub open spec fn opens(event: LoadEvent, session: VideoSession) -> bool {
    event matches LoadEvent::SessionAnswered(envelope) && envelope.data matches Some(data)
        && session == (VideoSession { token: data.token, params: data.params })
}

/// The lessons that an answer of the video service brings.
pub open spec fn brings(event: LoadEvent, shown: Seq<lessons::LessonView>) -> bool {
    event matches LoadEvent::LessonsAnswered(envelope) && envelope.data matches Some(page) && shown
        == shown_lessons(page.records@)
}

/// Whether one of the events opens the session.
pub open spec fn was_opened(events: Seq<LoadEvent>, session: VideoSession) -> bool {
    exists|i: int| 0 <= i < events.len() && #[trigger] opens(events[i], session)
}

/// Whether one of the events brings the lessons.
pub open spec fn were_given(events: Seq<LoadEvent>, shown: Seq<lessons::LessonView>) -> bool {
    exists|i: int| 0 <= i < events.len() && #[trigger] brings(events[i], shown)
}

/// What was answered before the reading reached its phase.
spec fn path_is_complete(events: Seq<LoadEvent>, state: LoadView) -> bool {
    &&& state.phase is ReadingLessons ==> state.session is Some && was_opened(
        events,
        state.session->0,
    )
    &&& state.phase is KeepingSession ==> were_given(events, state.lessons)
}

proof fn lemma_path_is_complete(course_id: u64, events: Seq<LoadEvent>)
    ensures
        path_is_complete(events, state_after(fresh_load(course_id), events)),
    decreases events.len(),
{
    if events.len() > 0 {
        let earlier = events.drop_last();
        lemma_path_is_complete(course_id, earlier);
        let before = state_after(fresh_load(course_id), earlier);
        let after = state_after(fresh_load(course_id), events);
        let last = events.len() - 1;
        if after.phase is ReadingLessons {
            let session = after.session->0;
            if before.phase is ReadingLessons {
                let i = choose|i: int|
                    0 <= i < earlier.len() && #[trigger] opens(earlier[i], session);
                assert(opens(events[i], session));
            } else {
                assert(before.phase is OpeningSession);
                assert(opens(events[last], session));
            }
        }
        if after.phase is KeepingSession {
            if before.phase is KeepingSession {
                let i = choose|i: int|
                    0 <= i < earlier.len() && #[trigger] brings(earlier[i], after.lessons);
                assert(brings(events[i], after.lessons));
            } else {
                assert(before.phase is ReadingLessons);
                assert(brings(events[last], after.lessons));
            }
        }
    }
}

/// Whether the address that an event reads carries the token, within the time for it.
pub open spec fn finds(event: LoadEvent, token_id: Seq<char>) -> bool {
    event matches LoadEvent::AddressRead { elapsed, current } && navigation::poll_result(
        elapsed,
        navigation::reading_view(current),
    ) == navigation::TokenPollView::Found(token_id)
}

/// Whether the token was found at the event at `i`, and the login window was sent away from the
/// address there and then.
pub open spec fn cleared_at(
    start: LoadView,
    events: Seq<LoadEvent>,
    i: int,
    token_id: Seq<char>,
) -> bool {
    &&& finds(events[i], token_id)
    &&& action_at(start, events, i) == (LoadActionView::ClearAddress {
        url: endpoints::VIDEO_PAGE_URL@,
    })
}

/// Whether the token was found at one of the events, and the address was cleared of it.
pub open spec fn was_cleared(start: LoadView, events: Seq<LoadEvent>, token_id: Seq<char>) -> bool {
    exists|i: int| 0 <= i < events.len() && #[trigger] cleared_at(start, events, i, token_id)
}

proof fn lemma_address_is_cleared(course_id: u64, events: Seq<LoadEvent>)
    ensures
        ({
            let state = state_after(fresh_load(course_id), events);
            state.phase is ClearingAddress ==> was_cleared(
                fresh_load(course_id),
                events,
                state.token_id,
            )
        }),
    decreases events.len(),
{
    if events.len() > 0 {
        let start = fresh_load(course_id);
        let earlier = events.drop_last();
        lemma_address_is_cleared(course_id, earlier);
        let before = state_after(start, earlier);
        let after = state_after(start, events);
        let last = events.len() - 1;
        assert(events.take(last) == earlier);
        if after.phase is ClearingAddress {
            let token_id = after.token_id;
            if before.phase is ClearingAddress {
                let i = choose|i: int|
                    0 <= i < earlier.len() && #[trigger] cleared_at(start, earlier, i, token_id);
                assert(earlier.take(i) == events.take(i));
                assert(cleared_at(start, events, i, token_id));
            } else {
                assert(before.phase is ReadingAddress);
                assert(cleared_at(start, events, last, token_id));
            }
        }
    }
}

/// A session is asked for only with a token that was found in the address of the login window, and
/// only once the window was sent away from that address and has gone.
pub proof fn law_sessions_follow_clearing(
    course_id: u64,
    events: Seq<LoadEvent>,
    n: int,
    token_id: Seq<char>,
)
    requires
        0 <= n < events.len(),
        action_at(fresh_load(course_id), events, n) == (LoadActionView::RequestSession {
            token_id,
        }),
    ensures
        was_cleared(fresh_load(course_id), events.take(n), token_id),
        events[n] is AddressCleared,
{
    lemma_address_is_cleared(course_id, events.take(n));
    let before = state_after(fresh_load(course_id), events.take(n));
    assert(before.phase is ClearingAddress);
}

/// A session is kept for downloads only where the video service opened it and then gave the list
/// of lessons.
pub proof fn law_kept_sessions_have_lessons(
    course_id: u64,
    events: Seq<LoadEvent>,
    n: int,
    session: VideoSession,
)
    requires
        0 <= n < events.len(),
        action_at(fresh_load(course_id), events, n) == LoadActionView::KeepSession(session),
    ensures
        was_opened(events.take(n), session),
        events[n] matches LoadEvent::LessonsAnswered(envelope) && envelope.data is Some,
{
    lemma_path_is_complete(course_id, events.take(n));
    let before = state_after(fresh_load(course_id), events.take(n));
    assert(before.phase is ReadingLessons);
}

/// The lessons that are shown are those of a list that the video service gave, and all of them are
/// open to students.
pub proof fn law_shown_lessons_were_given(
    course_id: u64,
    events: Seq<LoadEvent>,
    n: int,
    shown: Seq<lessons::LessonView>,
)
    requires
        0 <= n < events.len(),
        action_at(fresh_load(course_id), events, n) == LoadActionView::Show(shown),
    ensures
        were_given(events.take(n), shown),
        forall|k: int|
            0 <= k < shown.len() ==> (#[trigger] shown[k]).audit_status
                == lessons::OPEN_AUDIT_STATUS,
{
    let earlier = events.take(n);
    lemma_path_is_complete(course_id, earlier);
    let before = state_after(fresh_load(course_id), earlier);
    assert(before.phase is KeepingSession);
    let i = choose|i: int| 0 <= i < earlier.len() && #[trigger] brings(earlier[i], shown);
    let records = ((earlier[i]->LessonsAnswered_0).data->0).records@;
    lessons::law_shown_lessons_are_open(lessons::lessons_of(lessons::record_nodes(records)));
}

/// Where the token has expired, the reading fails and asks the user to log in again.
pub proof fn law_expired_readings_ask_to_log_in(state: LoadView, event: LoadEvent)
    requires
        match event {
            LoadEvent::SessionAnswered(envelope) => state.phase is OpeningSession
                && envelope.data is None && envelope.status == Some(api::EXPIRED_STATUS),
            LoadEvent::LessonsAnswered(envelope) => state.phase is ReadingLessons
                && envelope.data is None && envelope.status == Some(api::EXPIRED_STATUS),
            _ => false,
        },
    ensures
        load_step(state, event).0.phase is Ended,
        load_step(state, event).1 matches LoadActionView::Fail(message) && api::asks_to_log_in(
            message,
        ),
{
    match event {
        LoadEvent::SessionAnswered(envelope) => api::law_expired_tokens_ask_to_log_in(
            text::option_view(envelope.message),
            "视频授权失败"@,
        ),
        LoadEvent::LessonsAnswered(envelope) => api::law_expired_tokens_ask_to_log_in(
            text::option_view(envelope.message),
            "读取讲次失败"@,
        ),
        _ => {},
    }
}

/// Nothing is done any more once the reading has ended.
pub proof fn law_ended_readings_stay_ended(state: LoadView, event: LoadEvent)
    requires
        state.phase is Ended,
    ensures
        load_step(state, event) == (state, LoadActionView::Nothing),
{
}

} // verus!
