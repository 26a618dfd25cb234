//! What one event does to a login by QR code, said of what the event brings.

use vstd::prelude::*;

use crate::endpoints;
use crate::http;
use crate::json;
use crate::json::JsonNode;
use crate::login_page;
use crate::navigation::AuthStatusView;
use crate::qr_login;
use crate::qr_login::{QrActionView, QrEventView, QrLoginView, QrPhase, QrPushView, QrStepView};
use crate::record_laws;
use crate::text;

verus! {

/// Whether an event leads from a login to the same login in another phase.
pub open spec fn leads_to(before: QrLoginView, event: QrEventView, phase: QrPhase) -> bool {
    let after = qr_login::qr_step(before, event).0;
    after.phase == phase && after.uuid == before.uuid && after.referer == before.referer
}

/// Whether an event leads to an action, without a report and without a picture.
pub open spec fn only_does(before: QrLoginView, event: QrEventView, action: QrActionView) -> bool {
    let step = qr_login::qr_step(before, event).1;
    step.report is None && step.image is None && step.action == action
}

/// Whether an event leads to a report, and then to an action.
pub open spec fn tells(
    before: QrLoginView,
    event: QrEventView,
    phase: Seq<char>,
    message: Seq<char>,
    action: QrActionView,
) -> bool {
    let step = qr_login::qr_step(before, event).1;
    step.report == Some(AuthStatusView { phase, message }) && step.image is None && step.action
        == action
}

/// Whether an event ends a login with an error.
pub open spec fn fails(before: QrLoginView, event: QrEventView, message: Seq<char>) -> bool {
    leads_to(before, event, QrPhase::Ended) && tells(
        before,
        event,
        "error"@,
        message,
        QrActionView::End,
    )
}

/// What was achieved leads on: each step of opening the channel is followed by the next one.
pub proof fn law_opening_goes_on(state: QrLoginView)
    ensures
        state.phase is Idle ==> leads_to(state, QrEventView::Begin, QrPhase::BuildingClient)
            && tells(
            state,
            QrEventView::Begin,
            "qr-login"@,
            "正在获取二维码…"@,
            QrActionView::BuildClient,
        ),
        state.phase is BuildingClient ==> leads_to(
            state,
            QrEventView::ClientBuilt,
            QrPhase::LoadingPage,
        ) && only_does(state, QrEventView::ClientBuilt, QrActionView::LoadPage),
        state.phase is OpeningChannel ==> leads_to(
            state,
            QrEventView::ChannelOpened,
            QrPhase::RequestingFirstCode,
        ) && only_does(state, QrEventView::ChannelOpened, QrActionView::SendRefresh),
        state.phase is RequestingFirstCode ==> leads_to(
            state,
            QrEventView::RefreshSent,
            QrPhase::Listening,
        ) && tells(
            state,
            QrEventView::RefreshSent,
            "qr-login"@,
            "请使用交我办扫码"@,
            QrActionView::Listen,
        ),
{
}

/// The identifier that the login page names and the address of the page are kept, and the cookies
/// are collected for that address; a page without an identifier ends the login.
pub proof fn law_the_login_page_is_kept(state: QrLoginView, html: Seq<char>, url: Seq<char>)
    requires
        state.phase is LoadingPage,
    ensures
        login_page::page_uuid(html) matches Ok(uuid) ==> qr_login::qr_step(
            state,
            QrEventView::PageLoaded { html, url },
        ).0 == (QrLoginView { phase: QrPhase::CollectingCookies, uuid, referer: url }) && only_does(
            state,
            QrEventView::PageLoaded { html, url },
            QrActionView::CollectCookies { page_url: url },
        ),
        login_page::page_uuid(html) matches Err(message) ==> fails(
            state,
            QrEventView::PageLoaded { html, url },
            message,
        ),
{
}

/// The channel is opened for the identifier of the login page, with the cookies that were found,
/// character for character.
pub proof fn law_cookies_are_handed_on(state: QrLoginView, cookie: Seq<char>)
    requires
        state.phase is CollectingCookies,
    ensures
        leads_to(state, QrEventView::CookiesFound(cookie), QrPhase::OpeningChannel),
        only_does(
            state,
            QrEventView::CookiesFound(cookie),
            QrActionView::OpenChannel {
                url: "wss://jaccount.sjtu.edu.cn/jaccount/sub/"@ + state.uuid,
                cookie,
            },
        ),
{
}

/// What goes wrong before the channel is heard is told with its cause, and ends the login.
pub proof fn law_early_failures_are_told(state: QrLoginView, cause: Seq<char>)
    ensures
        state.phase is BuildingClient ==> fails(state, QrEventView::ClientFailed(cause), cause),
        state.phase is LoadingPage ==> fails(
            state,
            QrEventView::PageNotOpened(cause),
            "打开登录页失败"@ + "："@ + cause,
        ) && fails(
            state,
            QrEventView::PageNotRead(cause),
            "读取登录页失败"@ + "："@ + cause,
        ),
        state.phase is CollectingCookies ==> fails(
            state,
            QrEventView::CookiesMissing(cause),
            cause,
        ),
        state.phase is OpeningChannel ==> fails(
            state,
            QrEventView::ChannelInvalid(cause),
            "建立扫码连接失败"@ + "："@ + cause,
        ) && fails(
            state,
            QrEventView::ChannelRefused(cause),
            "连接 jAccount 失败"@ + "："@ + cause,
        ),
        state.phase is RequestingFirstCode ==> fails(
            state,
            QrEventView::RefreshFailed,
            "无法请求二维码，请重试"@,
        ),
{
}

/// What a login that listens hears besides announcements.
pub proof fn law_what_is_heard(state: QrLoginView, cause: Seq<char>)
    requires
        state.phase is Listening,
    ensures
        leads_to(state, QrEventView::StopRequested, QrPhase::Ended) && only_does(
            state,
            QrEventView::StopRequested,
            QrActionView::End,
        ),
        leads_to(state, QrEventView::ControllerGone, QrPhase::Ended) && only_does(
            state,
            QrEventView::ControllerGone,
            QrActionView::End,
        ),
        leads_to(state, QrEventView::ChannelClosed, QrPhase::Ended) && only_does(
            state,
            QrEventView::ChannelClosed,
            QrActionView::End,
        ),
        leads_to(state, QrEventView::RefreshRequested, QrPhase::RequestingCode) && only_does(
            state,
            QrEventView::RefreshRequested,
            QrActionView::SendRefresh,
        ),
        leads_to(state, QrEventView::OtherReceived, QrPhase::Listening) && only_does(
            state,
            QrEventView::OtherReceived,
            QrActionView::Listen,
        ),
        fails(state, QrEventView::ChannelBroken(cause), "扫码连接中断"@ + "："@ + cause),
{
}

/// A further request for a code leads back to listening, whether it could be sent or not.
pub proof fn law_a_refresh_leads_back(state: QrLoginView)
    requires
        state.phase is RequestingCode,
    ensures
        leads_to(state, QrEventView::RefreshSent, QrPhase::Listening) && only_does(
            state,
            QrEventView::RefreshSent,
            QrActionView::Listen,
        ),
        leads_to(state, QrEventView::RefreshFailed, QrPhase::Listening) && only_does(
            state,
            QrEventView::RefreshFailed,
            QrActionView::Listen,
        ),
{
}

/// What the announcements of the login service do: an error is told with its number, a new code is
/// fetched with what the announcement names and for the login page that is kept, a scan is told and
/// completed, and everything else is passed over.
pub proof fn law_announcements_are_followed(state: QrLoginView, message: Seq<char>)
    requires
        state.phase is Listening,
    ensures
        match qr_login::push_of_text(message) {
            QrPushView::Ignored => leads_to(
                state,
                QrEventView::TextReceived(message),
                QrPhase::Listening,
            ) && only_does(state, QrEventView::TextReceived(message), QrActionView::Listen),
            QrPushView::ServiceError(code) => leads_to(
                state,
                QrEventView::TextReceived(message),
                QrPhase::Listening,
            ) && tells(
                state,
                QrEventView::TextReceived(message),
                "error"@,
                "二维码服务返回错误 "@ + text::signed_decimal(code as int),
                QrActionView::Listen,
            ),
            QrPushView::NewCode { ts, sig } => leads_to(
                state,
                QrEventView::TextReceived(message),
                QrPhase::RequestingImage,
            ) && only_does(
                state,
                QrEventView::TextReceived(message),
                QrActionView::RequestImage { uuid: state.uuid, ts, sig, referer: state.referer },
            ),
            QrPushView::LoggedIn => leads_to(
                state,
                QrEventView::TextReceived(message),
                QrPhase::CompletingLogin,
            ) && tells(
                state,
                QrEventView::TextReceived(message),
                "qr-login"@,
                "扫码成功，正在连接 Canvas…"@,
                QrActionView::CompleteLogin { uuid: state.uuid },
            ),
        },
{
}

/// A picture is read where it was served, and shown as the Base64 text of its bytes; what goes wrong
/// is told with its cause, and the login listens again.
pub proof fn law_pictures_are_shown(
    state: QrLoginView,
    status: u16,
    bytes: Seq<u8>,
    cause: Seq<char>,
)
    ensures
        state.phase is RequestingImage && 200 <= status < 300 ==> leads_to(
            state,
            QrEventView::ImageAnswered(status),
            QrPhase::ReadingImage,
        ) && only_does(state, QrEventView::ImageAnswered(status), QrActionView::ReadImage),
        state.phase is RequestingImage && !(200 <= status < 300) ==> leads_to(
            state,
            QrEventView::ImageAnswered(status),
            QrPhase::Listening,
        ) && tells(
            state,
            QrEventView::ImageAnswered(status),
            "error"@,
            "二维码接口返回 "@ + http::status_text(status),
            QrActionView::Listen,
        ),
        state.phase is RequestingImage ==> leads_to(
            state,
            QrEventView::ImageNotRequested(cause),
            QrPhase::Listening,
        ) && tells(
            state,
            QrEventView::ImageNotRequested(cause),
            "error"@,
            "获取二维码失败"@ + "："@ + cause,
            QrActionView::Listen,
        ),
        state.phase is ReadingImage ==> leads_to(
            state,
            QrEventView::ImageNotRead(cause),
            QrPhase::Listening,
        ) && tells(
            state,
            QrEventView::ImageNotRead(cause),
            "error"@,
            "读取二维码失败"@ + "："@ + cause,
            QrActionView::Listen,
        ),
        state.phase is ReadingImage ==> leads_to(
            state,
            QrEventView::ImageRead(bytes),
            QrPhase::Listening,
        ) && qr_login::qr_step(state, QrEventView::ImageRead(bytes)).1 == (QrStepView {
            report: None,
            image: Some(endpoints::base64_text(bytes)),
            action: QrActionView::Listen,
        }),
{
}

/// After the scan the login is completed where the service leads away from its own page, and the
/// user is let in where the learning platform answers with success or a redirection; everything else
/// is told with its cause and ends the login.
pub proof fn law_the_scan_is_completed(
    state: QrLoginView,
    url: Seq<char>,
    status: u16,
    cause: Seq<char>,
)
    ensures
        ({
            let own = "https://jaccount.sjtu.edu.cn/jaccount/expresslogin"@;
            let stays = own.len() <= url.len() && url.take(own.len() as int) == own;
            &&& state.phase is CompletingLogin && !stays ==> leads_to(
                state,
                QrEventView::LoginAnswered(url),
                QrPhase::EnteringCanvas,
            ) && only_does(state, QrEventView::LoginAnswered(url), QrActionView::EnterCanvas)
            &&& state.phase is CompletingLogin && stays ==> fails(
                state,
                QrEventView::LoginAnswered(url),
                "扫码尚未确认，或登录已过期，请刷新二维码重试"@,
            )
        }),
        state.phase is CompletingLogin ==> fails(
            state,
            QrEventView::LoginFailed(cause),
            "完成扫码登录失败"@ + "："@ + cause,
        ),
        state.phase is EnteringCanvas && (200 <= status < 300 || status == 302) ==> leads_to(
            state,
            QrEventView::CanvasAnswered(status),
            QrPhase::Ended,
        ) && tells(
            state,
            QrEventView::CanvasAnswered(status),
            "authorized"@,
            "Canvas 已连接"@,
            QrActionView::End,
        ),
        state.phase is EnteringCanvas && !(200 <= status < 300 || status == 302) ==> fails(
            state,
            QrEventView::CanvasAnswered(status),
            "Canvas 登录返回 "@ + http::status_text(status),
        ),
        state.phase is EnteringCanvas ==> fails(
            state,
            QrEventView::CanvasFailed(cause),
            "连接 Canvas 失败"@ + "："@ + cause,
        ),
{
    let own = "https://jaccount.sjtu.edu.cn/jaccount/expresslogin"@;
    assert(endpoints::JACCOUNT_EXPRESS_URL@ == own);
    assert(own.is_prefix_of(url) <==> own.len() <= url.len() && url.take(own.len() as int) == own);
}

/// What a login waits for in each phase.
pub open spec fn is_awaited(phase: QrPhase, event: QrEventView) -> bool {
    match phase {
        QrPhase::Idle => event is Begin,
        QrPhase::BuildingClient => event is ClientBuilt || event is ClientFailed,
        QrPhase::LoadingPage => event is PageLoaded || event is PageNotOpened
            || event is PageNotRead,
        QrPhase::CollectingCookies => event is CookiesFound || event is CookiesMissing,
        QrPhase::OpeningChannel => event is ChannelOpened || event is ChannelInvalid
            || event is ChannelRefused,
        QrPhase::RequestingFirstCode => event is RefreshSent || event is RefreshFailed,
        QrPhase::Listening => event is StopRequested || event is ControllerGone
            || event is ChannelClosed || event is ChannelBroken || event is RefreshRequested
            || event is TextReceived || event is OtherReceived,
        QrPhase::RequestingCode => event is RefreshSent || event is RefreshFailed,
        QrPhase::RequestingImage => event is ImageAnswered || event is ImageNotRequested,
        QrPhase::ReadingImage => event is ImageRead || event is ImageNotRead,
        QrPhase::CompletingLogin => event is LoginAnswered || event is LoginFailed,
        QrPhase::EnteringCanvas => event is CanvasAnswered || event is CanvasFailed,
        QrPhase::Ended => false,
    }
}

/// What a login does not wait for changes nothing, and nothing is told.
pub proof fn law_nothing_else_changes_a_login(state: QrLoginView, event: QrEventView)
    requires
        !is_awaited(state.phase, event),
    ensures
        qr_login::qr_step(state, event).0 == state,
        qr_login::qr_step(state, event).1.report is None,
        qr_login::qr_step(state, event).1.image is None,
        !(state.phase is Ended) ==> qr_login::qr_step(state, event).1.action is Nothing,
        state.phase is Ended ==> qr_login::qr_step(state, event).1.action is End,
{
}

// ---------------------------------------------------------------------------------------------
// Announcements
// ---------------------------------------------------------------------------------------------

/// What the announcement of a scan, and one of another type, asks for.
pub proof fn law_announcements_go_by_their_type(
    nodes: Map<Seq<Seq<char>>, JsonNode>,
    kind: Seq<char>,
)
    ensures
        record_laws::holds_text(nodes, "type"@, "LOGIN"@) ==> qr_login::push_of(nodes)
            == QrPushView::LoggedIn,
        record_laws::holds_text(nodes, "type"@, kind) && kind != "LOGIN"@ && kind
            != "UPDATE_QR_CODE"@ ==> qr_login::push_of(nodes) == QrPushView::Ignored,
        record_laws::holds_no_text(nodes, "type"@) ==> qr_login::push_of(nodes)
            == QrPushView::Ignored,
{
    assert(seq!["type"@] + Seq::<Seq<char>>::empty() =~= seq!["type"@]);
    reveal_strlit("LOGIN");
    reveal_strlit("UPDATE_QR_CODE");
    assert("LOGIN"@.len() == 5);
    assert("UPDATE_QR_CODE"@.len() == 14);
}

/// The value of a member of the payload: a text that is not empty, or a number as it is printed.
pub open spec fn payload_value(
    nodes: Map<Seq<Seq<char>>, JsonNode>,
    key: Seq<char>,
) -> Option<Seq<char>> {
    if nodes.contains_key(seq!["payload"@, key]) {
        match nodes[seq!["payload"@, key]] {
            JsonNode::Text(t) => if t.len() > 0 {
                Some(t)
            } else {
                None
            },
            JsonNode::Integer(n) => Some(text::signed_decimal(n)),
            JsonNode::Float(t) => Some(t),
            _ => None,
        }
    } else {
        None
    }
}

/// What the announcement of a new code asks for: to tell of an error where its number is not zero,
/// and otherwise to fetch the code with exactly the two values of the payload, where both are there.
pub proof fn law_new_codes_are_announced(nodes: Map<Seq<Seq<char>>, JsonNode>)
    requires
        record_laws::holds_text(nodes, "type"@, "UPDATE_QR_CODE"@),
    ensures
        ({
            let failed = nodes.contains_key(seq!["error"@]) && (nodes[seq!["error"@]]
                matches JsonNode::Integer(n) && n != 0 && i64::MIN <= n <= i64::MAX);
            let ts = payload_value(nodes, "ts"@);
            let sig = payload_value(nodes, "sig"@);
            &&& failed ==> qr_login::push_of(nodes) == QrPushView::ServiceError(
                nodes[seq!["error"@]]->Integer_0 as i64,
            )
            &&& !failed && nodes.contains_key(seq!["payload"@]) && ts is Some && sig is Some
                ==> qr_login::push_of(nodes) == (QrPushView::NewCode { ts: ts->0, sig: sig->0 })
            &&& !failed && !(nodes.contains_key(seq!["payload"@]) && ts is Some && sig is Some)
                ==> qr_login::push_of(nodes) == QrPushView::Ignored
        }),
{
    let none = Seq::<Seq<char>>::empty();
    assert(seq!["type"@] + none =~= seq!["type"@]);
    assert(seq!["error"@] + none =~= seq!["error"@]);
    assert(seq!["payload"@] + seq!["ts"@] =~= seq!["payload"@, "ts"@]);
    assert(seq!["payload"@] + seq!["sig"@] =~= seq!["payload"@, "sig"@]);
    assert(seq!["ts"@] + none =~= seq!["ts"@]);
    assert(seq!["sig"@] + none =~= seq!["sig"@]);
    let body = json::below(nodes, "payload"@);
    assert(body.contains_key(seq!["ts"@]) <==> nodes.contains_key(seq!["payload"@, "ts"@]));
    assert(body.contains_key(seq!["sig"@]) <==> nodes.contains_key(seq!["payload"@, "sig"@]));
}

/// What a text asks for that was received: what it says as JSON, and nothing where it is none.
pub proof fn law_announcements_are_json(message: Seq<char>)
    ensures
        json::json_of_text(message) is None ==> qr_login::push_of_text(message)
            == QrPushView::Ignored,
        json::json_of_text(message) matches Some(nodes) ==> qr_login::push_of_text(message)
            == qr_login::push_of(nodes),
{
}

/// Every event can be taken, but for pages and announcements of an enormous length.
pub proof fn law_events_can_be_taken(event: QrEventView, html: Seq<char>, url: Seq<char>)
    ensures
        !(event is PageLoaded) && !(event is TextReceived) ==> qr_login::event_fits(event),
        vstd::utf8::encode_utf8(html).len() <= 0x2aaa_aaaa ==> qr_login::event_fits(
            QrEventView::PageLoaded { html, url },
        ),
        vstd::utf8::encode_utf8(html).len() <= 0x7fff_ffff ==> qr_login::event_fits(
            QrEventView::TextReceived(html),
        ),
{
}

} // verus!
