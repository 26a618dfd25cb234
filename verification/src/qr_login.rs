//! Logging in by scanning a QR code: what is done on each event, and what is reported.

use vstd::prelude::*;

use crate::endpoints;
use crate::failures;
use crate::failures::Failure;
use crate::http;
use crate::json;
use crate::login_page;
use crate::navigation;
use crate::navigation::AuthStatus;
use crate::text;

verus! {

// ---------------------------------------------------------------------------------------------
// What the login service announces
// ---------------------------------------------------------------------------------------------

/// What an announcement of the login service asks for.
#[derive(Clone, Debug)]
pub enum QrPush {
    /// Nothing.
    Ignored,
    /// To report that the service failed.
    ServiceError(i64),
    /// To fetch the picture of a new QR code.
    NewCode { ts: String, sig: String },
    /// To go on with the login: the code was scanned.
    LoggedIn,
}

/// What a [`QrPush`] holds.
pub enum QrPushView {
    Ignored,
    ServiceError(i64),
    NewCode { ts: Seq<char>, sig: Seq<char> },
    LoggedIn,
}

impl View for QrPush {
    type V = QrPushView;

    open spec fn view(&self) -> QrPushView {
        match self {
            QrPush::Ignored => QrPushView::Ignored,
            QrPush::ServiceError(code) => QrPushView::ServiceError(*code),
            QrPush::NewCode { ts, sig } => QrPushView::NewCode { ts: ts@, sig: sig@ },
            QrPush::LoggedIn => QrPushView::LoggedIn,
        }
    }
}

/// The text or number of the member `key`.
pub open spec fn member_scalar(
    nodes: Map<Seq<Seq<char>>, json::JsonNode>,
    key: Seq<char>,
) -> Option<Seq<char>> {
    match json::member(nodes, key) {
        Some(found) => json::scalar_text(json::root(found)),
        None => None,
    }
}

/// The number of the member `error`, where that is an integer.
pub open spec fn error_code(nodes: Map<Seq<Seq<char>>, json::JsonNode>) -> Option<i64> {
    match json::member(nodes, "error"@) {
        Some(found) => json::node_i64(json::root(found)),
        None => None,
    }
}

/// What the announcement of a new QR code asks for.
pub open spec fn new_code_push(nodes: Map<Seq<Seq<char>>, json::JsonNode>) -> QrPushView {
    if error_code(nodes) is Some && error_code(nodes)->0 != 0 {
        QrPushView::ServiceError(error_code(nodes)->0)
    } else {
        match json::member(nodes, "payload"@) {
            Some(body) => match (member_scalar(body, "ts"@), member_scalar(body, "sig"@)) {
                (Some(ts), Some(sig)) => QrPushView::NewCode { ts, sig },
                _ => QrPushView::Ignored,
            },
            None => QrPushView::Ignored,
        }
    }
}

/// What an announcement asks for.
pub open spec fn push_of(nodes: Map<Seq<Seq<char>>, json::JsonNode>) -> QrPushView {
    match json::member_text(nodes, "type"@) {
        Some(kind) => if kind == "UPDATE_QR_CODE"@ {
            new_code_push(nodes)
        } else if kind == "LOGIN"@ {
            QrPushView::LoggedIn
        } else {
            QrPushView::Ignored
        },
        None => QrPushView::Ignored,
    }
}

/// What an announcement asks for, given as it was received.
pub open spec fn push_of_text(message: Seq<char>) -> QrPushView {
    match json::json_of_text(message) {
        Some(nodes) => push_of(nodes),
        None => QrPushView::Ignored,
    }
}

/// The text or number of the member `key`.
fn scalar_member(value: &serde_json::Value, key: &str) -> (r: Option<String>)
    ensures
        text::option_view(r) == member_scalar(json::json_nodes(*value), key@),
{
    match json::json_member(value, key) {
        Some(found) => json::value_as_string(found),
        None => None,
    }
}

/// What the announcement of a new QR code asks for.
fn read_new_code(value: &serde_json::Value) -> (r: QrPush)
    ensures
        r@ == new_code_push(json::json_nodes(*value)),
{
    if let Some(found) = json::json_member(value, "error") {
        if let Some(code) = json::json_integer(found) {
            if code != 0 {
                return QrPush::ServiceError(code);
            }
        }
    }
    let Some(body) = json::json_member(value, "payload") else {
        return QrPush::Ignored;
    };
    let Some(ts) = scalar_member(body, "ts") else {
        return QrPush::Ignored;
    };
    let Some(sig) = scalar_member(body, "sig") else {
        return QrPush::Ignored;
    };
    QrPush::NewCode { ts, sig }
}

/// What an announcement asks for.
pub fn read_push(value: &serde_json::Value) -> (r: QrPush)
    ensures
        r@ == push_of(json::json_nodes(*value)),
{
    let Some(found) = json::json_member(value, "type") else {
        return QrPush::Ignored;
    };
    let Some(kind) = json::json_text(found) else {
        return QrPush::Ignored;
    };
    if text::same_text(kind, "UPDATE_QR_CODE") {
        read_new_code(value)
    } else if text::same_text(kind, "LOGIN") {
        QrPush::LoggedIn
    } else {
        QrPush::Ignored
    }
}

/// What an announcement asks for, given as it was received.
pub fn read_push_text(message: &str) -> (r: QrPush)
    requires
        vstd::utf8::encode_utf8(message@).len() <= json::TEXT_LIMIT,
    ensures
        r@ == push_of_text(message@),
{
    match json::parse_json(message) {
        Some(value) => read_push(&value),
        None => QrPush::Ignored,
    }
}

// ---------------------------------------------------------------------------------------------
// States, events and steps
// ---------------------------------------------------------------------------------------------

/// What a login waits for.
#[derive(Clone, Copy, Debug, PartialEq, Eq, Structural)]
pub enum QrPhase {
    /// To be started.
    Idle,
    /// The client that requests are made with.
    BuildingClient,
    /// The login page.
    LoadingPage,
    /// The cookies of the session.
    CollectingCookies,
    /// The channel of announcements.
    OpeningChannel,
    /// The first request for a QR code to be sent.
    RequestingFirstCode,
    /// Announcements, and what the user asks for.
    Listening,
    /// A further request for a QR code to be sent.
    RequestingCode,
    /// The answer to the request for the picture of a QR code.
    RequestingImage,
    /// The picture of a QR code.
    ReadingImage,
    /// The answer of the login service after the scan.
    CompletingLogin,
    /// The answer of the learning platform.
    EnteringCanvas,
    /// Nothing more.
    Ended,
}

/// A login: what it waits for, the identifier of its login page and the address of that page.
#[derive(Debug)]
pub struct QrLogin {
    pub phase: QrPhase,
    pub uuid: String,
    pub referer: String,
}

/// What a [`QrLogin`] holds.
pub struct QrLoginView {
    pub phase: QrPhase,
    pub uuid: Seq<char>,
    pub referer: Seq<char>,
}

impl View for QrLogin {
    type V = QrLoginView;

    open spec fn view(&self) -> QrLoginView {
        QrLoginView { phase: self.phase, uuid: self.uuid@, referer: self.referer@ }
    }
}

/// What happens to a login.
#[derive(Debug)]
pub enum QrEvent {
    Begin,
    ClientBuilt,
    ClientFailed(String),
    PageLoaded { html: String, url: String },
    PageNotOpened(String),
    PageNotRead(String),
    CookiesFound(String),
    CookiesMissing(String),
    ChannelInvalid(String),
    ChannelRefused(String),
    ChannelOpened,
    RefreshSent,
    RefreshFailed,
    StopRequested,
    RefreshRequested,
    ControllerGone,
    ChannelClosed,
    ChannelBroken(String),
    TextReceived(String),
    OtherReceived,
    ImageAnswered(u16),
    ImageNotRequested(String),
    ImageRead(Vec<u8>),
    ImageNotRead(String),
    LoginAnswered(String),
    LoginFailed(String),
    CanvasAnswered(u16),
    CanvasFailed(String),
}

/// What a [`QrEvent`] holds.
pub enum QrEventView {
    Begin,
    ClientBuilt,
    ClientFailed(Seq<char>),
    PageLoaded { html: Seq<char>, url: Seq<char> },
    PageNotOpened(Seq<char>),
    PageNotRead(Seq<char>),
    CookiesFound(Seq<char>),
    CookiesMissing(Seq<char>),
    ChannelInvalid(Seq<char>),
    ChannelRefused(Seq<char>),
    ChannelOpened,
    RefreshSent,
    RefreshFailed,
    StopRequested,
    RefreshRequested,
    ControllerGone,
    ChannelClosed,
    ChannelBroken(Seq<char>),
    TextReceived(Seq<char>),
    OtherReceived,
    ImageAnswered(u16),
    ImageNotRequested(Seq<char>),
    ImageRead(Seq<u8>),
    ImageNotRead(Seq<char>),
    LoginAnswered(Seq<char>),
    LoginFailed(Seq<char>),
    CanvasAnswered(u16),
    CanvasFailed(Seq<char>),
}

impl View for QrEvent {
    type V = QrEventView;

    open spec fn view(&self) -> QrEventView {
        match self {
            QrEvent::Begin => QrEventView::Begin,
            QrEvent::ClientBuilt => QrEventView::ClientBuilt,
            QrEvent::ClientFailed(message) => QrEventView::ClientFailed(message@),
            QrEvent::PageLoaded { html, url } => QrEventView::PageLoaded { html: html@, url: url@ },
            QrEvent::PageNotOpened(cause) => QrEventView::PageNotOpened(cause@),
            QrEvent::PageNotRead(cause) => QrEventView::PageNotRead(cause@),
            QrEvent::CookiesFound(cookie) => QrEventView::CookiesFound(cookie@),
            QrEvent::CookiesMissing(message) => QrEventView::CookiesMissing(message@),
            QrEvent::ChannelInvalid(cause) => QrEventView::ChannelInvalid(cause@),
            QrEvent::ChannelRefused(cause) => QrEventView::ChannelRefused(cause@),
            QrEvent::ChannelOpened => QrEventView::ChannelOpened,
            QrEvent::RefreshSent => QrEventView::RefreshSent,
            QrEvent::RefreshFailed => QrEventView::RefreshFailed,
            QrEvent::StopRequested => QrEventView::StopRequested,
            QrEvent::RefreshRequested => QrEventView::RefreshRequested,
            QrEvent::ControllerGone => QrEventView::ControllerGone,
            QrEvent::ChannelClosed => QrEventView::ChannelClosed,
            QrEvent::ChannelBroken(cause) => QrEventView::ChannelBroken(cause@),
            QrEvent::TextReceived(message) => QrEventView::TextReceived(message@),
            QrEvent::OtherReceived => QrEventView::OtherReceived,
            QrEvent::ImageAnswered(status) => QrEventView::ImageAnswered(*status),
            QrEvent::ImageNotRequested(cause) => QrEventView::ImageNotRequested(cause@),
            QrEvent::ImageRead(bytes) => QrEventView::ImageRead(bytes@),
            QrEvent::ImageNotRead(cause) => QrEventView::ImageNotRead(cause@),
            QrEvent::LoginAnswered(url) => QrEventView::LoginAnswered(url@),
            QrEvent::LoginFailed(cause) => QrEventView::LoginFailed(cause@),
            QrEvent::CanvasAnswered(status) => QrEventView::CanvasAnswered(*status),
            QrEvent::CanvasFailed(cause) => QrEventView::CanvasFailed(cause@),
        }
    }
}

/// What is to be done next for a login.
#[derive(Debug)]
pub enum QrAction {
    BuildClient,
    LoadPage,
    CollectCookies { page_url: String },
    OpenChannel { url: String, cookie: String },
    SendRefresh,
    Listen,
    RequestImage { uuid: String, ts: String, sig: String, referer: String },
    ReadImage,
    CompleteLogin { uuid: String },
    EnterCanvas,
    Nothing,
    End,
}

/// What a [`QrAction`] holds.
pub enum QrActionView {
    BuildClient,
    LoadPage,
    CollectCookies { page_url: Seq<char> },
    OpenChannel { url: Seq<char>, cookie: Seq<char> },
    SendRefresh,
    Listen,
    RequestImage { uuid: Seq<char>, ts: Seq<char>, sig: Seq<char>, referer: Seq<char> },
    ReadImage,
    CompleteLogin { uuid: Seq<char> },
    EnterCanvas,
    Nothing,
    End,
}

impl View for QrAction {
    type V = QrActionView;

    open spec fn view(&self) -> QrActionView {
        match self {
            QrAction::BuildClient => QrActionView::BuildClient,
            QrAction::LoadPage => QrActionView::LoadPage,
            QrAction::CollectCookies { page_url } => QrActionView::CollectCookies {
                page_url: page_url@,
            },
            QrAction::OpenChannel { url, cookie } => QrActionView::OpenChannel {
                url: url@,
                cookie: cookie@,
            },
            QrAction::SendRefresh => QrActionView::SendRefresh,
            QrAction::Listen => QrActionView::Listen,
            QrAction::RequestImage { uuid, ts, sig, referer } => QrActionView::RequestImage {
                uuid: uuid@,
                ts: ts@,
                sig: sig@,
                referer: referer@,
            },
            QrAction::ReadImage => QrActionView::ReadImage,
            QrAction::CompleteLogin { uuid } => QrActionView::CompleteLogin { uuid: uuid@ },
            QrAction::EnterCanvas => QrActionView::EnterCanvas,
            QrAction::Nothing => QrActionView::Nothing,
            QrAction::End => QrActionView::End,
        }
    }
}

/// What comes of an event: what is reported, the QR code that is shown, and what is to be done
/// next, in this order.
#[derive(Debug)]
pub struct QrStep {
    pub report: Option<AuthStatus>,
    pub image: Option<String>,
    pub action: QrAction,
}

/// What a [`QrStep`] holds.
pub struct QrStepView {
    pub report: Option<navigation::AuthStatusView>,
    pub image: Option<Seq<char>>,
    pub action: QrActionView,
}

impl View for QrStep {
    type V = QrStepView;

    open spec fn view(&self) -> QrStepView {
        QrStepView {
            report: match self.report {
                Some(status) => Some(status@),
                None => None,
            },
            image: text::option_view(self.image),
            action: self.action@,
        }
    }
}

/// A step that reports nothing and shows nothing.
pub open spec fn quiet(action: QrActionView) -> QrStepView {
    QrStepView { report: None, image: None, action }
}

/// A step that reports how far the login has come.
pub open spec fn told(phase: Seq<char>, message: Seq<char>, action: QrActionView) -> QrStepView {
    QrStepView {
        report: Some(navigation::AuthStatusView { phase, message }),
        image: None,
        action,
    }
}

/// The login in another phase.
pub open spec fn in_phase(state: QrLoginView, phase: QrPhase) -> QrLoginView {
    QrLoginView { phase, ..state }
}

/// The end of a login with an error.
pub open spec fn ended_with(state: QrLoginView, message: Seq<char>) -> (QrLoginView, QrStepView) {
    (in_phase(state, QrPhase::Ended), told("error"@, message, QrActionView::End))
}

/// The end of a login without a report.
pub open spec fn ended(state: QrLoginView) -> (QrLoginView, QrStepView) {
    (in_phase(state, QrPhase::Ended), quiet(QrActionView::End))
}

/// A login that is not waiting for what happened goes on waiting.
pub open spec fn passed_over(state: QrLoginView) -> (QrLoginView, QrStepView) {
    (state, quiet(QrActionView::Nothing))
}

/// What an announcement does to a login that listens.
pub open spec fn on_push(state: QrLoginView, push: QrPushView) -> (QrLoginView, QrStepView) {
    match push {
        QrPushView::Ignored => (state, quiet(QrActionView::Listen)),
        QrPushView::ServiceError(code) => (
            state,
            told(
                "error"@,
                "二维码服务返回错误 "@ + text::signed_decimal(code as int),
                QrActionView::Listen,
            ),
        ),
        QrPushView::NewCode { ts, sig } => (
            in_phase(state, QrPhase::RequestingImage),
            quiet(
                QrActionView::RequestImage { uuid: state.uuid, ts, sig, referer: state.referer },
            ),
        ),
        QrPushView::LoggedIn => (
            in_phase(state, QrPhase::CompletingLogin),
            told(
                "qr-login"@,
                "扫码成功，正在连接 Canvas…"@,
                QrActionView::CompleteLogin { uuid: state.uuid },
            ),
        ),
    }
}

/// What happens to a login that listens.
pub open spec fn on_listening(state: QrLoginView, event: QrEventView) -> (QrLoginView, QrStepView) {
    match event {
        QrEventView::StopRequested => ended(state),
        QrEventView::ControllerGone => ended(state),
        QrEventView::ChannelClosed => ended(state),
        QrEventView::ChannelBroken(cause) => ended_with(
            state,
            failures::failure_message(Failure::ChannelBroken, cause),
        ),
        QrEventView::RefreshRequested => (
            in_phase(state, QrPhase::RequestingCode),
            quiet(QrActionView::SendRefresh),
        ),
        QrEventView::TextReceived(message) => on_push(state, push_of_text(message)),
        QrEventView::OtherReceived => (state, quiet(QrActionView::Listen)),
        _ => passed_over(state),
    }
}

/// What happens to a login before it listens.
pub open spec fn on_opening(state: QrLoginView, event: QrEventView) -> (QrLoginView, QrStepView) {
    match (state.phase, event) {
        (QrPhase::Idle, QrEventView::Begin) => (
            in_phase(state, QrPhase::BuildingClient),
            told("qr-login"@, "正在获取二维码…"@, QrActionView::BuildClient),
        ),
        (QrPhase::BuildingClient, QrEventView::ClientBuilt) => (
            in_phase(state, QrPhase::LoadingPage),
            quiet(QrActionView::LoadPage),
        ),
        (QrPhase::BuildingClient, QrEventView::ClientFailed(message)) => ended_with(state, message),
        (QrPhase::LoadingPage, QrEventView::PageNotOpened(cause)) => ended_with(
            state,
            failures::failure_message(Failure::OpenLoginPage, cause),
        ),
        (QrPhase::LoadingPage, QrEventView::PageNotRead(cause)) => ended_with(
            state,
            failures::failure_message(Failure::ReadLoginPage, cause),
        ),
        (QrPhase::LoadingPage, QrEventView::PageLoaded { html, url }) => match login_page::page_uuid(
            html,
        ) {
            Ok(uuid) => (
                QrLoginView { phase: QrPhase::CollectingCookies, uuid, referer: url },
                quiet(QrActionView::CollectCookies { page_url: url }),
            ),
            Err(message) => ended_with(state, message),
        },
        (QrPhase::CollectingCookies, QrEventView::CookiesMissing(message)) => ended_with(
            state,
            message,
        ),
        (QrPhase::CollectingCookies, QrEventView::CookiesFound(cookie)) => (
            in_phase(state, QrPhase::OpeningChannel),
            quiet(
                QrActionView::OpenChannel { url: endpoints::qr_channel(state.uuid), cookie },
            ),
        ),
        (QrPhase::OpeningChannel, QrEventView::ChannelInvalid(cause)) => ended_with(
            state,
            failures::failure_message(Failure::PrepareChannel, cause),
        ),
        (QrPhase::OpeningChannel, QrEventView::ChannelRefused(cause)) => ended_with(
            state,
            failures::failure_message(Failure::ConnectChannel, cause),
        ),
        (QrPhase::OpeningChannel, QrEventView::ChannelOpened) => (
            in_phase(state, QrPhase::RequestingFirstCode),
            quiet(QrActionView::SendRefresh),
        ),
        (QrPhase::RequestingFirstCode, QrEventView::RefreshFailed) => ended_with(
            state,
            "无法请求二维码，请重试"@,
        ),
        (QrPhase::RequestingFirstCode, QrEventView::RefreshSent) => (
            in_phase(state, QrPhase::Listening),
            told("qr-login"@, "请使用交我办扫码"@, QrActionView::Listen),
        ),
        _ => passed_over(state),
    }
}

/// What comes of the request for the picture of a QR code. A failure is reported, and the login
/// goes on listening.
pub open spec fn on_image(state: QrLoginView, event: QrEventView) -> (QrLoginView, QrStepView) {
    let listening = in_phase(state, QrPhase::Listening);
    match (state.phase, event) {
        (QrPhase::RequestingImage, QrEventView::ImageNotRequested(cause)) => (
            listening,
            told(
                "error"@,
                failures::failure_message(Failure::FetchQrImage, cause),
                QrActionView::Listen,
            ),
        ),
        (QrPhase::RequestingImage, QrEventView::ImageAnswered(status)) => {
            match http::qr_image_result(status, http::status_text(status)) {
                Ok(_) => (in_phase(state, QrPhase::ReadingImage), quiet(QrActionView::ReadImage)),
                Err(message) => (listening, told("error"@, message, QrActionView::Listen)),
            }
        },
        (QrPhase::ReadingImage, QrEventView::ImageNotRead(cause)) => (
            listening,
            told(
                "error"@,
                failures::failure_message(Failure::ReadQrImage, cause),
                QrActionView::Listen,
            ),
        ),
        (QrPhase::ReadingImage, QrEventView::ImageRead(bytes)) => (
            listening,
            QrStepView {
                report: None,
                image: Some(endpoints::base64_text(bytes)),
                action: QrActionView::Listen,
            },
        ),
        _ => passed_over(state),
    }
}

/// What comes of the scan.
pub open spec fn on_scan(state: QrLoginView, event: QrEventView) -> (QrLoginView, QrStepView) {
    match (state.phase, event) {
        (QrPhase::CompletingLogin, QrEventView::LoginFailed(cause)) => ended_with(
            state,
            failures::failure_message(Failure::CompleteLogin, cause),
        ),
        (QrPhase::CompletingLogin, QrEventView::LoginAnswered(url)) => {
            match http::express_login_result(url) {
                Ok(_) => (
                    in_phase(state, QrPhase::EnteringCanvas),
                    quiet(QrActionView::EnterCanvas),
                ),
                Err(message) => ended_with(state, message),
            }
        },
        (QrPhase::EnteringCanvas, QrEventView::CanvasFailed(cause)) => ended_with(
            state,
            failures::failure_message(Failure::ConnectCanvas, cause),
        ),
        (QrPhase::EnteringCanvas, QrEventView::CanvasAnswered(status)) => {
            match http::canvas_login_result(status, http::status_text(status)) {
                Ok(_) => (
                    in_phase(state, QrPhase::Ended),
                    told("authorized"@, "Canvas 已连接"@, QrActionView::End),
                ),
                Err(message) => ended_with(state, message),
            }
        },
        _ => passed_over(state),
    }
}

/// What an event does to a login.
pub open spec fn qr_step(state: QrLoginView, event: QrEventView) -> (QrLoginView, QrStepView) {
    match state.phase {
        QrPhase::Listening => on_listening(state, event),
        QrPhase::RequestingCode => match event {
            QrEventView::RefreshSent => (
                in_phase(state, QrPhase::Listening),
                quiet(QrActionView::Listen),
            ),
            QrEventView::RefreshFailed => (
                in_phase(state, QrPhase::Listening),
                quiet(QrActionView::Listen),
            ),
            _ => passed_over(state),
        },
        QrPhase::RequestingImage => on_image(state, event),
        QrPhase::ReadingImage => on_image(state, event),
        QrPhase::CompletingLogin => on_scan(state, event),
        QrPhase::EnteringCanvas => on_scan(state, event),
        QrPhase::Ended => (state, quiet(QrActionView::End)),
        _ => on_opening(state, event),
    }
}

/// A login that is to be started.
pub open spec fn fresh_login() -> QrLoginView {
    QrLoginView { phase: QrPhase::Idle, uuid: Seq::empty(), referer: Seq::empty() }
}

/// Whether the page or the announcement that an event brings, where it brings one, is within its
/// limit.
pub open spec fn event_fits(event: QrEventView) -> bool {
    match event {
        QrEventView::PageLoaded { html, .. } => vstd::utf8::encode_utf8(html).len()
            <= login_page::PAGE_LIMIT,
        QrEventView::TextReceived(message) => vstd::utf8::encode_utf8(message).len()
            <= json::TEXT_LIMIT,
        _ => true,
    }
}

fn quietly(action: QrAction) -> (r: QrStep)
    ensures
        r@ == quiet(action@),
{
    QrStep { report: None, image: None, action }
}

fn telling(phase: &'static str, message: &str, action: QrAction) -> (r: QrStep)
    ensures
        r@ == told(phase@, message@, action@),
{
    QrStep { report: Some(AuthStatus::new(phase, message)), image: None, action }
}

impl QrLogin {
    /// A login that is to be started.
    pub fn new() -> (r: QrLogin)
        ensures
            r@ == fresh_login(),
    {
        QrLogin { phase: QrPhase::Idle, uuid: String::new(), referer: String::new() }
    }

    fn end_with(&mut self, message: &str) -> (r: QrStep)
        ensures
            (final(self)@, r@) == ended_with(old(self)@, message@),
    {
        self.phase = QrPhase::Ended;
        telling("error", message, QrAction::End)
    }

    fn end_for(&mut self, failure: Failure, cause: &str) -> (r: QrStep)
        ensures
            (final(self)@, r@) == ended_with(
                old(self)@,
                failures::failure_message(failure, cause@),
            ),
    {
        let message = failure.message(cause);
        self.end_with(message.as_str())
    }

    fn go_on(&mut self, phase: QrPhase, action: QrAction) -> (r: QrStep)
        ensures
            final(self)@ == in_phase(old(self)@, phase),
            r@ == quiet(action@),
    {
        self.phase = phase;
        quietly(action)
    }

    fn listen_again(&mut self, failure: Failure, cause: &str) -> (r: QrStep)
        ensures
            final(self)@ == in_phase(old(self)@, QrPhase::Listening),
            r@ == told(
                "error"@,
                failures::failure_message(failure, cause@),
                QrActionView::Listen,
            ),
    {
        self.phase = QrPhase::Listening;
        let message = failure.message(cause);
        telling("error", message.as_str(), QrAction::Listen)
    }

    fn take_push(&mut self, push: QrPush) -> (r: QrStep)
        ensures
            (final(self)@, r@) == on_push(old(self)@, push@),
    {
        match push {
            QrPush::Ignored => quietly(QrAction::Listen),
            QrPush::ServiceError(code) => {
                let mut message: String = "二维码服务返回错误 ".to_owned();
                let digits = text::signed_decimal_text(code);
                message.append(digits.as_str());
                telling("error", message.as_str(), QrAction::Listen)
            },
            QrPush::NewCode { ts, sig } => {
                let uuid = self.uuid.clone();
                let referer = self.referer.clone();
                self.go_on(
                    QrPhase::RequestingImage,
                    QrAction::RequestImage { uuid, ts, sig, referer },
                )
            },
            QrPush::LoggedIn => {
                self.phase = QrPhase::CompletingLogin;
                let uuid = self.uuid.clone();
                telling(
                    "qr-login",
                    "扫码成功，正在连接 Canvas…",
                    QrAction::CompleteLogin { uuid },
                )
            },
        }
    }

    fn step_listening(&mut self, event: QrEvent) -> (r: QrStep)
        requires
            old(self).phase == QrPhase::Listening,
            event_fits(event@),
        ensures
            (final(self)@, r@) == on_listening(old(self)@, event@),
    {
        match event {
            QrEvent::StopRequested => self.go_on(QrPhase::Ended, QrAction::End),
            QrEvent::ControllerGone => self.go_on(QrPhase::Ended, QrAction::End),
            QrEvent::ChannelClosed => self.go_on(QrPhase::Ended, QrAction::End),
            QrEvent::ChannelBroken(cause) => self.end_for(Failure::ChannelBroken, cause.as_str()),
            QrEvent::RefreshRequested => self.go_on(
                QrPhase::RequestingCode,
                QrAction::SendRefresh,
            ),
            QrEvent::TextReceived(message) => {
                let push = read_push_text(message.as_str());
                self.take_push(push)
            },
            QrEvent::OtherReceived => quietly(QrAction::Listen),
            _ => quietly(QrAction::Nothing),
        }
    }

    fn step_opening(&mut self, event: QrEvent) -> (r: QrStep)
        requires
            event_fits(event@),
        ensures
            (final(self)@, r@) == on_opening(old(self)@, event@),
    {
        match (self.phase, event) {
            (QrPhase::Idle, QrEvent::Begin) => {
                self.phase = QrPhase::BuildingClient;
                telling("qr-login", "正在获取二维码…", QrAction::BuildClient)
            },
            (QrPhase::BuildingClient, QrEvent::ClientBuilt) => self.go_on(
                QrPhase::LoadingPage,
                QrAction::LoadPage,
            ),
            (QrPhase::BuildingClient, QrEvent::ClientFailed(message)) => self.end_with(
                message.as_str(),
            ),
            (QrPhase::LoadingPage, QrEvent::PageNotOpened(cause)) => self.end_for(
                Failure::OpenLoginPage,
                cause.as_str(),
            ),
            (QrPhase::LoadingPage, QrEvent::PageNotRead(cause)) => self.end_for(
                Failure::ReadLoginPage,
                cause.as_str(),
            ),
            (QrPhase::LoadingPage, QrEvent::PageLoaded { html, url }) => {
                match login_page::extract_uuid(html.as_str()) {
                    Ok(uuid) => {
                        self.phase = QrPhase::CollectingCookies;
                        self.uuid = uuid;
                        self.referer = url.clone();
                        quietly(QrAction::CollectCookies { page_url: url })
                    },
                    Err(message) => self.end_with(message.as_str()),
                }
            },
            (QrPhase::CollectingCookies, QrEvent::CookiesMissing(message)) => self.end_with(
                message.as_str(),
            ),
            (QrPhase::CollectingCookies, QrEvent::CookiesFound(cookie)) => {
                let url = endpoints::qr_channel_url(self.uuid.as_str());
                self.go_on(QrPhase::OpeningChannel, QrAction::OpenChannel { url, cookie })
            },
            (QrPhase::OpeningChannel, QrEvent::ChannelInvalid(cause)) => self.end_for(
                Failure::PrepareChannel,
                cause.as_str(),
            ),
            (QrPhase::OpeningChannel, QrEvent::ChannelRefused(cause)) => self.end_for(
                Failure::ConnectChannel,
                cause.as_str(),
            ),
            (QrPhase::OpeningChannel, QrEvent::ChannelOpened) => self.go_on(
                QrPhase::RequestingFirstCode,
                QrAction::SendRefresh,
            ),
            (QrPhase::RequestingFirstCode, QrEvent::RefreshFailed) => self.end_with(
                "无法请求二维码，请重试",
            ),
            (QrPhase::RequestingFirstCode, QrEvent::RefreshSent) => {
                self.phase = QrPhase::Listening;
                telling("qr-login", "请使用交我办扫码", QrAction::Listen)
            },
            _ => quietly(QrAction::Nothing),
        }
    }

    fn step_image(&mut self, event: QrEvent) -> (r: QrStep)
        ensures
            (final(self)@, r@) == on_image(old(self)@, event@),
    {
        match (self.phase, event) {
            (QrPhase::RequestingImage, QrEvent::ImageNotRequested(cause)) => self.listen_again(
                Failure::FetchQrImage,
                cause.as_str(),
            ),
            (QrPhase::RequestingImage, QrEvent::ImageAnswered(status)) => {
                match http::check_qr_image(status) {
                    Ok(_) => self.go_on(QrPhase::ReadingImage, QrAction::ReadImage),
                    Err(message) => {
                        self.phase = QrPhase::Listening;
                        telling("error", message.as_str(), QrAction::Listen)
                    },
                }
            },
            (QrPhase::ReadingImage, QrEvent::ImageNotRead(cause)) => self.listen_again(
                Failure::ReadQrImage,
                cause.as_str(),
            ),
            (QrPhase::ReadingImage, QrEvent::ImageRead(bytes)) => {
                self.phase = QrPhase::Listening;
                let image = endpoints::qr_code_text(bytes.as_slice());
                QrStep { report: None, image: Some(image), action: QrAction::Listen }
            },
            _ => quietly(QrAction::Nothing),
        }
    }

    fn step_scan(&mut self, event: QrEvent) -> (r: QrStep)
        ensures
            (final(self)@, r@) == on_scan(old(self)@, event@),
    {
        match (self.phase, event) {
            (QrPhase::CompletingLogin, QrEvent::LoginFailed(cause)) => self.end_for(
                Failure::CompleteLogin,
                cause.as_str(),
            ),
            (QrPhase::CompletingLogin, QrEvent::LoginAnswered(url)) => {
                match http::check_express_login(url.as_str()) {
                    Ok(_) => self.go_on(QrPhase::EnteringCanvas, QrAction::EnterCanvas),
                    Err(message) => self.end_with(message.as_str()),
                }
            },
            (QrPhase::EnteringCanvas, QrEvent::CanvasFailed(cause)) => self.end_for(
                Failure::ConnectCanvas,
                cause.as_str(),
            ),
            (QrPhase::EnteringCanvas, QrEvent::CanvasAnswered(status)) => {
                match http::check_canvas_login(status) {
                    Ok(_) => {
                        self.phase = QrPhase::Ended;
                        telling("authorized", "Canvas 已连接", QrAction::End)
                    },
                    Err(message) => self.end_with(message.as_str()),
                }
            },
            _ => quietly(QrAction::Nothing),
        }
    }

    /// Takes an event: what is reported and what is to be done next. An event that the login does
    /// not wait for changes nothing.
    pub fn step(&mut self, event: QrEvent) -> (r: QrStep)
        requires
            event_fits(event@),
        ensures
            (final(self)@, r@) == qr_step(old(self)@, event@),
    {
        match self.phase {
            QrPhase::Listening => self.step_listening(event),
            QrPhase::RequestingCode => match event {
                QrEvent::RefreshSent => self.go_on(QrPhase::Listening, QrAction::Listen),
                QrEvent::RefreshFailed => self.go_on(QrPhase::Listening, QrAction::Listen),
                _ => quietly(QrAction::Nothing),
            },
            QrPhase::RequestingImage => self.step_image(event),
            QrPhase::ReadingImage => self.step_image(event),
            QrPhase::CompletingLogin => self.step_scan(event),
            QrPhase::EnteringCanvas => self.step_scan(event),
            QrPhase::Ended => quietly(QrAction::End),
            _ => self.step_opening(event),
        }
    }
}

} // verus!
