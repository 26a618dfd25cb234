use canvas_pocket::api::{AccessParams, ApiEnvelope, ExchangeData, LessonPage};
use canvas_pocket::lesson_loading::{LessonLoading, LoadAction, LoadEvent};
use canvas_pocket::navigation::WebUrl;
use canvas_pocket::qr_login::{self, QrAction, QrEvent, QrLogin, QrPhase, QrPush, QrStep};

fn value(text: &str) -> serde_json::Value {
    serde_json::from_str(text).unwrap()
}

fn text(s: &str) -> String {
    s.to_string()
}

fn report(step: &QrStep) -> Option<(&'static str, &str)> {
    step.report.as_ref().map(|s| (s.phase, s.message.as_str()))
}

const PAGE: &str = "<a id='firefox_link' href='jaccount://x?uuid=u-1&amp;y=2'>x</a>";

/// A login that listens.
fn listening() -> QrLogin {
    let mut login = QrLogin::new();
    login.step(QrEvent::Begin);
    login.step(QrEvent::ClientBuilt);
    login.step(QrEvent::PageLoaded { html: text(PAGE), url: text("https://page/") });
    login.step(QrEvent::CookiesFound(text("a=1")));
    login.step(QrEvent::ChannelOpened);
    login.step(QrEvent::RefreshSent);
    assert_eq!(login.phase, QrPhase::Listening);
    login
}

#[test]
fn announcements_are_read() {
    assert!(matches!(qr_login::read_push(&value(r#"{"type": "LOGIN"}"#)), QrPush::LoggedIn));
    match qr_login::read_push_text(
        r#"{"type": "UPDATE_QR_CODE", "error": 0, "payload": {"ts": 17200, "sig": "s"}}"#,
    ) {
        QrPush::NewCode { ts, sig } => assert_eq!((ts, sig), (text("17200"), text("s"))),
        other => panic!("{:?}", other),
    }
    match qr_login::read_push_text(r#"{"type": "UPDATE_QR_CODE", "error": -4, "payload": {}}"#) {
        QrPush::ServiceError(code) => assert_eq!(code, -4),
        other => panic!("{:?}", other),
    }
}

#[test]
fn other_announcements_are_ignored() {
    for message in [
        "",
        "no json",
        "{}",
        "[]",
        r#"{"type": 1}"#,
        r#"{"type": "PING"}"#,
        r#"{"type": "UPDATE_QR_CODE"}"#,
        r#"{"type": "UPDATE_QR_CODE", "payload": 1}"#,
        r#"{"type": "UPDATE_QR_CODE", "payload": {"ts": "", "sig": "s"}}"#,
        r#"{"type": "UPDATE_QR_CODE", "payload": {"ts": "t"}}"#,
        r#"{"type": "UPDATE_QR_CODE", "payload": {"ts": "t", "sig": null}}"#,
    ] {
        assert!(matches!(qr_login::read_push_text(message), QrPush::Ignored), "{}", message);
    }
}

#[test]
fn an_error_that_is_no_integer_does_not_count() {
    let message = r#"{"type": "UPDATE_QR_CODE", "error": "5", "payload": {"ts": "t", "sig": "s"}}"#;
    assert!(matches!(qr_login::read_push_text(message), QrPush::NewCode { .. }));
}

#[test]
fn a_login_runs_to_its_end() {
    let mut login = QrLogin::new();
    let step = login.step(QrEvent::Begin);
    assert_eq!(report(&step), Some(("qr-login", "正在获取二维码…")));
    assert!(matches!(step.action, QrAction::BuildClient));
    assert!(matches!(login.step(QrEvent::ClientBuilt).action, QrAction::LoadPage));
    let step = login.step(QrEvent::PageLoaded { html: text(PAGE), url: text("https://page/") });
    match step.action {
        QrAction::CollectCookies { page_url } => assert_eq!(page_url, "https://page/"),
        other => panic!("{:?}", other),
    }
    match login.step(QrEvent::CookiesFound(text("a=1"))).action {
        QrAction::OpenChannel { url, cookie } => {
            assert_eq!(url, "wss://jaccount.sjtu.edu.cn/jaccount/sub/u-1");
            assert_eq!(cookie, "a=1");
        }
        other => panic!("{:?}", other),
    }
    assert!(matches!(login.step(QrEvent::ChannelOpened).action, QrAction::SendRefresh));
    let step = login.step(QrEvent::RefreshSent);
    assert_eq!(report(&step), Some(("qr-login", "请使用交我办扫码")));
    assert!(matches!(step.action, QrAction::Listen));
    let push = r#"{"type": "UPDATE_QR_CODE", "payload": {"ts": "t", "sig": "s"}}"#;
    match login.step(QrEvent::TextReceived(text(push))).action {
        QrAction::RequestImage { uuid, ts, sig, referer } => {
            assert_eq!((uuid.as_str(), ts.as_str(), sig.as_str()), ("u-1", "t", "s"));
            assert_eq!(referer, "https://page/");
        }
        other => panic!("{:?}", other),
    }
    assert!(matches!(login.step(QrEvent::ImageAnswered(200)).action, QrAction::ReadImage));
    let step = login.step(QrEvent::ImageRead(vec![1, 2, 3]));
    assert_eq!(step.image.as_deref(), Some("AQID"));
    assert_eq!(report(&step), None);
    assert!(matches!(step.action, QrAction::Listen));
    let step = login.step(QrEvent::TextReceived(text(r#"{"type": "LOGIN"}"#)));
    assert_eq!(report(&step), Some(("qr-login", "扫码成功，正在连接 Canvas…")));
    assert!(matches!(step.action, QrAction::CompleteLogin { uuid } if uuid == "u-1"));
    let step = login.step(QrEvent::LoginAnswered(text("https://courses.sjtu.edu.cn/")));
    assert!(matches!(step.action, QrAction::EnterCanvas));
    let step = login.step(QrEvent::CanvasAnswered(200));
    assert_eq!(report(&step), Some(("authorized", "Canvas 已连接")));
    assert!(matches!(step.action, QrAction::End));
    assert_eq!(login.phase, QrPhase::Ended);
}

#[test]
fn early_failures_end_a_login() {
    let events: Vec<(Vec<QrEvent>, &str)> = vec![
        (vec![QrEvent::ClientFailed(text("x"))], "x"),
        (vec![QrEvent::ClientBuilt, QrEvent::PageNotOpened(text("x"))], "打开登录页失败：x"),
        (vec![QrEvent::ClientBuilt, QrEvent::PageNotRead(text("x"))], "读取登录页失败：x"),
        (
            vec![
                QrEvent::ClientBuilt,
                QrEvent::PageLoaded { html: text("<p>"), url: text("https://page/") },
            ],
            "未找到 jAccount 登录入口，页面结构可能已变化",
        ),
    ];
    for (events, message) in events {
        let mut login = QrLogin::new();
        let mut step = login.step(QrEvent::Begin);
        for event in events {
            step = login.step(event);
        }
        assert_eq!(report(&step), Some(("error", message)));
        assert!(matches!(step.action, QrAction::End));
        assert_eq!(login.phase, QrPhase::Ended);
    }
}

#[test]
fn failures_of_the_channel_end_a_login() {
    for (event, message) in [
        (QrEvent::ChannelInvalid(text("x")), "建立扫码连接失败：x"),
        (QrEvent::ChannelRefused(text("x")), "连接 jAccount 失败：x"),
    ] {
        let mut login = listening();
        login.phase = QrPhase::OpeningChannel;
        assert_eq!(report(&login.step(event)), Some(("error", message)));
        assert_eq!(login.phase, QrPhase::Ended);
    }
    let mut login = listening();
    login.phase = QrPhase::CollectingCookies;
    let step = login.step(QrEvent::CookiesMissing(text("缺少")));
    assert_eq!(report(&step), Some(("error", "缺少")));
    let mut login = listening();
    login.phase = QrPhase::RequestingFirstCode;
    assert_eq!(
        report(&login.step(QrEvent::RefreshFailed)),
        Some(("error", "无法请求二维码，请重试"))
    );
    let mut login = listening();
    let step = login.step(QrEvent::ChannelBroken(text("x")));
    assert_eq!(report(&step), Some(("error", "扫码连接中断：x")));
    assert_eq!(login.phase, QrPhase::Ended);
}

#[test]
fn a_login_can_be_stopped_and_refreshed() {
    for event in [QrEvent::StopRequested, QrEvent::ControllerGone, QrEvent::ChannelClosed] {
        let mut login = listening();
        let step = login.step(event);
        assert_eq!(report(&step), None);
        assert!(matches!(step.action, QrAction::End));
        assert_eq!(login.phase, QrPhase::Ended);
    }
    for answer in [QrEvent::RefreshSent, QrEvent::RefreshFailed] {
        let mut login = listening();
        assert!(matches!(login.step(QrEvent::RefreshRequested).action, QrAction::SendRefresh));
        let step = login.step(answer);
        assert_eq!(report(&step), None);
        assert!(matches!(step.action, QrAction::Listen));
        assert_eq!(login.phase, QrPhase::Listening);
    }
}

#[test]
fn a_listening_login_survives_what_goes_wrong_with_codes() {
    let mut login = listening();
    let step = login.step(QrEvent::TextReceived(text(r#"{"type": "UPDATE_QR_CODE", "error": 7}"#)));
    assert_eq!(report(&step), Some(("error", "二维码服务返回错误 7")));
    assert_eq!(login.phase, QrPhase::Listening);
    assert!(matches!(login.step(QrEvent::OtherReceived).action, QrAction::Listen));
    assert!(matches!(login.step(QrEvent::TextReceived(text("x"))).action, QrAction::Listen));
    for (phase, event, message) in [
        (
            QrPhase::RequestingImage,
            QrEvent::ImageNotRequested(text("x")),
            "获取二维码失败：x",
        ),
        (QrPhase::RequestingImage, QrEvent::ImageAnswered(500), "二维码接口返回 500 Internal Server Error"),
        (QrPhase::ReadingImage, QrEvent::ImageNotRead(text("x")), "读取二维码失败：x"),
    ] {
        login.phase = phase;
        let step = login.step(event);
        assert_eq!(report(&step), Some(("error", message)));
        assert!(matches!(step.action, QrAction::Listen));
        assert_eq!(login.phase, QrPhase::Listening);
    }
}

#[test]
fn failures_after_the_scan_end_a_login() {
    for (phase, event, message) in [
        (QrPhase::CompletingLogin, QrEvent::LoginFailed(text("x")), "完成扫码登录失败：x"),
        (
            QrPhase::CompletingLogin,
            QrEvent::LoginAnswered(text("https://jaccount.sjtu.edu.cn/jaccount/expresslogin")),
            "扫码尚未确认，或登录已过期，请刷新二维码重试",
        ),
        (QrPhase::EnteringCanvas, QrEvent::CanvasFailed(text("x")), "连接 Canvas 失败：x"),
        (QrPhase::EnteringCanvas, QrEvent::CanvasAnswered(403), "Canvas 登录返回 403 Forbidden"),
    ] {
        let mut login = listening();
        login.phase = phase;
        let step = login.step(event);
        assert_eq!(report(&step), Some(("error", message)));
        assert!(matches!(step.action, QrAction::End));
        assert_eq!(login.phase, QrPhase::Ended);
    }
}

#[test]
fn events_that_are_not_waited_for_change_nothing() {
    let mut login = listening();
    assert!(matches!(login.step(QrEvent::Begin).action, QrAction::Nothing));
    assert!(matches!(login.step(QrEvent::CanvasAnswered(200)).action, QrAction::Nothing));
    assert_eq!(login.phase, QrPhase::Listening);
    login.step(QrEvent::StopRequested);
    let step = login.step(QrEvent::CanvasAnswered(200));
    assert_eq!(report(&step), None);
    assert!(matches!(step.action, QrAction::End));
}

fn exchange() -> ApiEnvelope<ExchangeData> {
    let params = AccessParams {
        cour_id: text("a+b/="),
        lti_course_id: text("l"),
        course_name: text("n"),
    };
    ApiEnvelope {
        data: Some(ExchangeData { token: text("tok"), params }),
        message: None,
        status: None,
    }
}

fn at(address: &str, elapsed: u128) -> LoadEvent {
    LoadEvent::AddressRead { elapsed, current: WebUrl::parse(address) }
}

fn message(action: LoadAction) -> String {
    match action {
        LoadAction::Fail(message) => message,
        other => panic!("{:?}", other),
    }
}

/// A reading that waits for the session.
fn opening() -> LessonLoading {
    let mut load = LessonLoading::new(7);
    load.step(LoadEvent::Begin);
    load.step(LoadEvent::Navigated);
    load.step(at("https://v.sjtu.edu.cn/#/i?tokenId=t", 0));
    load.step(LoadEvent::AddressCleared);
    load
}

#[test]
fn lessons_are_loaded() {
    let mut load = LessonLoading::new(7);
    match load.step(LoadEvent::Begin) {
        LoadAction::Navigate { url } => assert_eq!(
            url,
            "https://oc.sjtu.edu.cn/courses/7/external_tools/8329?display=borderless"
        ),
        other => panic!("{:?}", other),
    }
    assert!(matches!(load.step(LoadEvent::Navigated), LoadAction::ReadAddress));
    assert!(matches!(load.step(at("https://oc.sjtu.edu.cn/", 0)), LoadAction::Pause));
    assert!(matches!(load.step(LoadEvent::Paused), LoadAction::ReadAddress));
    match load.step(at("https://v.sjtu.edu.cn/#/i?tokenId=t", 250_000_000)) {
        LoadAction::ClearAddress { url } => {
            assert_eq!(url, "https://v.sjtu.edu.cn/jy-application-canvas-sjtu-ui/")
        }
        other => panic!("{:?}", other),
    }
    match load.step(LoadEvent::AddressCleared) {
        LoadAction::RequestSession { token_id } => assert_eq!(token_id, "t"),
        other => panic!("{:?}", other),
    }
    match load.step(LoadEvent::SessionAnswered(exchange())) {
        LoadAction::RequestLessons { token, course_id } => {
            assert_eq!((token.as_str(), course_id.as_str()), ("tok", "a%2Bb%2F%3D"))
        }
        other => panic!("{:?}", other),
    }
    let records = vec![
        value(r#"{"videoId": "a", "videAuditStatus": 3}"#),
        value(r#"{"videoId": "b", "videAuditStatus": 1}"#),
        value(r#"{"videoId": "c", "videAuditStatus": "3"}"#),
    ];
    let page = ApiEnvelope { data: Some(LessonPage { records }), message: None, status: None };
    match load.step(LoadEvent::LessonsAnswered(page)) {
        LoadAction::KeepSession(session) => assert_eq!(session.token, "tok"),
        other => panic!("{:?}", other),
    }
    match load.step(LoadEvent::SessionKept) {
        LoadAction::Show(shown) => {
            let all: Vec<(&str, &str)> =
                shown.iter().map(|l| (l.video_id.as_str(), l.title.as_str())).collect();
            assert_eq!(all, vec![("a", "第01讲"), ("c", "第03讲")]);
        }
        other => panic!("{:?}", other),
    }
    assert!(matches!(load.step(LoadEvent::SessionKept), LoadAction::Nothing));
}

#[test]
fn loading_fails_before_the_session() {
    assert_eq!(
        message(LessonLoading::new(7).step(LoadEvent::WindowMissing)),
        "请先完成扫码登录"
    );
    let mut load = LessonLoading::new(7);
    load.step(LoadEvent::Begin);
    assert_eq!(message(load.step(LoadEvent::NotNavigated(text("x")))), "x");
    let mut load = LessonLoading::new(7);
    load.step(LoadEvent::Begin);
    load.step(LoadEvent::Navigated);
    assert_eq!(
        message(load.step(at("https://oc.sjtu.edu.cn/", 35_000_000_001))),
        "课堂视频授权超时，请重新选择课程"
    );
    let mut load = LessonLoading::new(7);
    load.step(LoadEvent::Begin);
    load.step(LoadEvent::Navigated);
    load.step(at("https://v.sjtu.edu.cn/#/i?tokenId=t", 0));
    assert_eq!(message(load.step(LoadEvent::AddressNotCleared(text("x")))), "x");
    assert_eq!(message(opening().step(LoadEvent::ClientFailed(text("x")))), "x");
    assert_eq!(
        message(opening().step(LoadEvent::SessionNotRequested(text("x")))),
        "视频授权失败：x"
    );
    assert_eq!(
        message(opening().step(LoadEvent::SessionNotUnderstood(text("x")))),
        "视频授权响应异常：x"
    );
    let refused = ApiEnvelope { data: None, message: Some(text("m")), status: Some(5) };
    assert_eq!(
        message(opening().step(LoadEvent::SessionAnswered(refused))),
        "视频授权失败：m（状态 5）"
    );
    let expired = ApiEnvelope { data: None, message: None, status: Some(115117) };
    assert_eq!(
        message(opening().step(LoadEvent::SessionAnswered(expired))),
        "视频授权失败：服务未返回数据（状态 115117），请重新扫码登录"
    );
}

#[test]
fn loading_fails_after_the_session() {
    let reading = || {
        let mut load = opening();
        load.step(LoadEvent::SessionAnswered(exchange()));
        load
    };
    assert_eq!(message(reading().step(LoadEvent::ClientFailed(text("x")))), "x");
    assert_eq!(
        message(reading().step(LoadEvent::LessonsNotRequested(text("x")))),
        "读取讲次失败：x"
    );
    assert_eq!(
        message(reading().step(LoadEvent::LessonsNotUnderstood(text("x")))),
        "讲次响应异常：x"
    );
    let refused = ApiEnvelope { data: None, message: None, status: Some(115117) };
    assert_eq!(
        message(reading().step(LoadEvent::LessonsAnswered(refused))),
        "读取讲次失败：服务未返回数据（状态 115117），请重新扫码登录"
    );
    let mut load = reading();
    let page = LessonPage { records: vec![] };
    load.step(LoadEvent::LessonsAnswered(ApiEnvelope {
        data: Some(page),
        message: None,
        status: None,
    }));
    assert_eq!(message(load.step(LoadEvent::SessionNotKept)), "会话状态不可用");
}
