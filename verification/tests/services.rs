use canvas_pocket::api::{self, AccessParams, ApiEnvelope, ExchangeData};
use canvas_pocket::endpoints;
use canvas_pocket::failures::Failure;
use canvas_pocket::http;
use canvas_pocket::json;
use canvas_pocket::login_page;
use canvas_pocket::navigation::{self, AuthStatus, TokenPoll, WebUrl};

fn value(text: &str) -> serde_json::Value {
    serde_json::from_str(text).unwrap()
}

fn url(text: &str) -> WebUrl {
    WebUrl::parse(text).unwrap()
}

fn status(s: AuthStatus) -> (&'static str, String) {
    (s.phase, s.message)
}

#[test]
fn addresses_are_built() {
    assert_eq!(
        endpoints::lti_launch_url(91234),
        "https://oc.sjtu.edu.cn/courses/91234/external_tools/8329?display=borderless"
    );
    assert_eq!(
        endpoints::qr_channel_url("ab-12"),
        "wss://jaccount.sjtu.edu.cn/jaccount/sub/ab-12"
    );
    assert_eq!(endpoints::range_header(1024), "bytes=1024-");
}

#[test]
fn tracks_are_named_in_base64() {
    assert_eq!(
        endpoints::official_download_url("video-1"),
        "https://v.sjtu.edu.cn/jy-application-canvas-sjtu/directOnDemandPlay/downloadVideo?id=dmlkZW8tMQ=="
    );
    assert_eq!(
        endpoints::official_download_url(""),
        "https://v.sjtu.edu.cn/jy-application-canvas-sjtu/directOnDemandPlay/downloadVideo?id="
    );
    assert_eq!(endpoints::qr_code_text(&[0xfb, 0xff, 0x00]), "+/8A");
    assert_eq!(endpoints::qr_code_text(&[0xfb, 0xff]), "+/8=");
    assert_eq!(endpoints::qr_code_text(&[0x00, 0x10, 0x83, 0x10, 0x51, 0x87, 0x20]), "ABCDEFGHIA==");
}

#[test]
fn texts_are_url_encoded() {
    assert_eq!(endpoints::url_encode("a+b/="), "a%2Bb%2F%3D");
    assert_eq!(endpoints::url_encode("AZaz09-._~"), "AZaz09-._~");
    assert_eq!(endpoints::url_encode(" %\u{7f}"), "%20%25%7F");
    assert_eq!(endpoints::url_encode("课"), "%E8%AF%BE");
    assert_eq!(endpoints::url_encode(""), "");
    for s in ["a+b/=", "课 程", "%2B", "&=?#"] {
        let query = format!("k={}", endpoints::url_encode(s));
        let pairs: Vec<(String, String)> =
            url::form_urlencoded::parse(query.as_bytes()).into_owned().collect();
        assert_eq!(pairs, vec![("k".to_string(), s.to_string())]);
    }
}

#[test]
fn statuses_decide() {
    assert!(http::status_is_success(200));
    assert!(http::status_is_success(206));
    assert!(http::status_is_success(299));
    assert!(!http::status_is_success(199));
    assert!(!http::status_is_success(300));
    assert_eq!(http::check_qr_image(200), Ok(()));
    assert_eq!(http::check_qr_image(404), Err("二维码接口返回 404 Not Found".to_string()));
    assert_eq!(http::check_canvas_login(302), Ok(()));
    assert_eq!(http::check_canvas_login(301), Err("Canvas 登录返回 301 Moved Permanently".to_string()));
    assert_eq!(http::check_course_list(200), Ok(()));
    assert_eq!(
        http::check_course_list(401),
        Err("Canvas 返回 401 Unauthorized，请重新扫码".to_string())
    );
    assert_eq!(http::check_video(206), Ok(()));
    assert_eq!(http::check_video(599), Err("视频服务返回 599 <unknown status code>".to_string()));
}

#[test]
fn outcomes_use_the_line_that_is_given() {
    assert_eq!(http::qr_image_outcome(500, "x"), Err("二维码接口返回 x".to_string()));
    assert_eq!(http::canvas_login_outcome(500, "x"), Err("Canvas 登录返回 x".to_string()));
    assert_eq!(http::course_list_outcome(500, "x"), Err("Canvas 返回 x，请重新扫码".to_string()));
    assert_eq!(http::video_outcome(500, "x"), Err("视频服务返回 x".to_string()));
    assert_eq!(http::video_outcome(200, "x"), Ok(()));
}

#[test]
fn a_login_that_stays_on_its_page_is_not_confirmed() {
    assert_eq!(
        http::check_express_login("https://jaccount.sjtu.edu.cn/jaccount/expresslogin?uuid=1"),
        Err("扫码尚未确认，或登录已过期，请刷新二维码重试".to_string())
    );
    assert_eq!(http::check_express_login("https://courses.sjtu.edu.cn/app"), Ok(()));
}

#[test]
fn failures_are_told_with_their_causes() {
    assert_eq!(Failure::OpenLoginPage.message("x"), "打开登录页失败：x");
    assert_eq!(Failure::ReadLoginPage.message("x"), "读取登录页失败：x");
    assert_eq!(Failure::FetchQrImage.message("x"), "获取二维码失败：x");
    assert_eq!(Failure::ReadQrImage.message("x"), "读取二维码失败：x");
    assert_eq!(Failure::RefreshQrCode.message("x"), "刷新二维码失败：x");
    assert_eq!(Failure::PrepareChannel.message("x"), "建立扫码连接失败：x");
    assert_eq!(Failure::ConnectChannel.message("x"), "连接 jAccount 失败：x");
    assert_eq!(Failure::ChannelBroken.message("x"), "扫码连接中断：x");
    assert_eq!(Failure::CompleteLogin.message("x"), "完成扫码登录失败：x");
    assert_eq!(Failure::ConnectCanvas.message("x"), "连接 Canvas 失败：x");
    assert_eq!(Failure::ReadCourses.message("x"), "读取课程失败：x");
    assert_eq!(Failure::CourseFormat.message("x"), "课程数据格式异常：x");
    assert_eq!(Failure::Authorize.message("x"), "视频授权失败：x");
    assert_eq!(Failure::AuthorizeFormat.message("x"), "视频授权响应异常：x");
    assert_eq!(Failure::ReadLessons.message("x"), "读取讲次失败：x");
    assert_eq!(Failure::LessonFormat.message("x"), "讲次响应异常：x");
    assert_eq!(Failure::ReadTracks.message("x"), "读取视频分轨失败：x");
    assert_eq!(Failure::TrackFormat.message("x"), "视频分轨响应异常：x");
    assert_eq!(Failure::RequestDownload.message("x"), "下载请求失败：x");
    assert_eq!(Failure::RequestFallback.message("x"), "备用下载请求失败：x");
    assert_eq!(Failure::CreateFile.message("x"), "无法创建文件：x");
    assert_eq!(Failure::DownloadBroken.message("x"), "下载中断：x");
    assert_eq!(Failure::WriteFile.message("x"), "写入失败：x");
    assert_eq!(Failure::FinishFile.message("x"), "完成文件失败：x");
    assert_eq!(Failure::ReadSubtitles.message("x"), "读取字幕失败：x");
    assert_eq!(Failure::SubtitleFormat.message("x"), "字幕响应异常：x");
    assert_eq!(Failure::WriteSubtitles.message("x"), "字幕写入失败：x");
    assert_eq!(Failure::CreateDirectory.message(""), "无法创建保存目录：");
}

#[test]
fn errors_of_the_video_service_are_told() {
    let mut envelope: ApiEnvelope<u8> = ApiEnvelope { data: None, message: None, status: None };
    assert_eq!(api::api_error(&envelope, "读取讲次失败"), "读取讲次失败：服务未返回数据");
    envelope.status = Some(115117);
    assert_eq!(
        api::api_error(&envelope, "读取讲次失败"),
        "读取讲次失败：服务未返回数据（状态 115117）"
    );
    envelope.message = Some("token 过期".to_string());
    envelope.status = Some(-1);
    assert_eq!(api::api_error(&envelope, "x"), "x：token 过期（状态 -1）");
    envelope.message = Some(String::new());
    envelope.status = None;
    assert_eq!(api::api_error(&envelope, "x"), "x：");
}

#[test]
fn answers_hold_data_or_an_error() {
    let full = ApiEnvelope { data: Some(7u8), message: Some("m".to_string()), status: Some(1) };
    assert_eq!(api::data_or_error(full, "x"), Ok(7));
    let empty: ApiEnvelope<u8> =
        ApiEnvelope { data: None, message: Some("m".to_string()), status: Some(1) };
    assert_eq!(api::data_or_error(empty, "x"), Err("x：m（状态 1）".to_string()));
}

#[test]
fn expired_tokens_ask_to_log_in_again() {
    let expired: ApiEnvelope<u8> = ApiEnvelope { data: None, message: None, status: Some(115117) };
    assert!(api::is_expired(&expired));
    assert_eq!(api::api_error(&expired, "x"), "x：服务未返回数据（状态 115117）");
    assert_eq!(api::refusal(&expired, "x"), "x：服务未返回数据（状态 115117），请重新扫码登录");
    assert_eq!(
        api::data_or_error(expired, "x"),
        Err("x：服务未返回数据（状态 115117），请重新扫码登录".to_string())
    );
    let other: ApiEnvelope<u8> = ApiEnvelope { data: None, message: None, status: Some(115116) };
    assert!(!api::is_expired(&other));
    assert_eq!(api::refusal(&other, "x"), "x：服务未返回数据（状态 115116）");
}

#[test]
fn sessions_are_opened() {
    let params = AccessParams {
        cour_id: "c".to_string(),
        lti_course_id: "l".to_string(),
        course_name: "n".to_string(),
    };
    let data = ExchangeData { token: "t".to_string(), params };
    let session =
        api::open_session(ApiEnvelope { data: Some(data), message: None, status: None }).unwrap();
    assert_eq!(session.token, "t");
    assert_eq!(session.params.cour_id, "c");
    assert_eq!(session.params.lti_course_id, "l");
    assert_eq!(session.params.course_name, "n");
    let refused = api::open_session(ApiEnvelope { data: None, message: None, status: Some(2) });
    assert_eq!(refused.unwrap_err(), "视频授权失败：服务未返回数据（状态 2）");
}

#[test]
fn scalars_are_read_as_texts() {
    assert_eq!(json::value_as_string(&value("\"abc\"")).as_deref(), Some("abc"));
    assert_eq!(json::value_as_string(&value("\"\"")), None);
    assert_eq!(json::value_as_string(&value("1720000000123")).as_deref(), Some("1720000000123"));
    assert_eq!(json::value_as_string(&value("-5")).as_deref(), Some("-5"));
    assert_eq!(
        json::value_as_string(&value("18446744073709551615")).as_deref(),
        Some("18446744073709551615")
    );
    assert_eq!(json::value_as_string(&value("1.5")).as_deref(), Some("1.5"));
    assert_eq!(json::value_as_string(&value("true")), None);
    assert_eq!(json::value_as_string(&value("null")), None);
    assert_eq!(json::value_as_string(&value("[1]")), None);
    assert_eq!(json::value_as_string(&value("{}")), None);
}

#[test]
fn the_first_text_counts() {
    let v = value(r#"{"a": 1, "b": "", "c": "x", "d": {"e": "y"}}"#);
    assert_eq!(json::json_string(&v, &["a", "c"]), "x");
    assert_eq!(json::json_string(&v, &["b", "c"]), "");
    assert_eq!(json::json_string(&v, &["e"]), "");
    assert_eq!(json::json_string(&v, &[]), "");
    assert_eq!(json::json_string(&value("[]"), &["a"]), "");
    assert_eq!(json::json_string(&value("\"a\""), &["a"]), "");
}

#[test]
fn integers_may_be_texts() {
    let v = value(r#"{"a": 3, "b": "3", "c": "x", "d": 3.0, "e": -7, "f": 18446744073709551615}"#);
    assert_eq!(json::json_i64(&v, "a"), 3);
    assert_eq!(json::json_i64(&v, "b"), 3);
    assert_eq!(json::json_i64(&v, "c"), 0);
    assert_eq!(json::json_i64(&v, "d"), 0);
    assert_eq!(json::json_i64(&v, "e"), -7);
    assert_eq!(json::json_i64(&v, "f"), 0);
    assert_eq!(json::json_i64(&v, "missing"), 0);
}

#[test]
fn addresses_are_read() {
    let u = url("https://v.sjtu.edu.cn/jy-application-canvas-sjtu-ui/#/ivsModules/index?tokenId=a");
    assert_eq!(u.host.as_deref(), Some("v.sjtu.edu.cn"));
    assert_eq!(u.path, "/jy-application-canvas-sjtu-ui/");
    assert_eq!(u.fragment.as_deref(), Some("/ivsModules/index?tokenId=a"));
    assert!(u.is_on("v.sjtu.edu.cn"));
    assert!(!u.is_on("sjtu.edu.cn"));
    assert_eq!(url("https://OC.sjtu.edu.cn").host.as_deref(), Some("oc.sjtu.edu.cn"));
    assert_eq!(url("about:blank").host, None);
    assert_eq!(WebUrl::parse("no address").unwrap_err(), "relative URL without a base");
}

#[test]
fn only_the_three_services_are_shown() {
    assert!(navigation::allowed_navigation(&url("https://oc.sjtu.edu.cn/courses/1")));
    assert!(navigation::allowed_navigation(&url("https://jaccount.sjtu.edu.cn/jaccount/")));
    assert!(navigation::allowed_navigation(&url("https://v.sjtu.edu.cn/")));
    assert!(!navigation::allowed_navigation(&url("https://courses.sjtu.edu.cn/")));
    assert!(!navigation::allowed_navigation(&url("https://oc.sjtu.edu.cn.example.com/")));
    assert!(!navigation::allowed_navigation(&url("jaccount://login")));
    assert!(!navigation::allowed_navigation(&url("about:blank")));
}

#[test]
fn stages_of_the_login_are_told_apart() {
    assert_eq!(
        status(navigation::classify_auth_url(&url("https://jaccount.sjtu.edu.cn/jaccount/jalogin"))),
        ("qr-login", "请使用交我办扫码".to_string())
    );
    assert_eq!(
        status(navigation::classify_auth_url(&url("https://oc.sjtu.edu.cn/"))),
        ("authorized", "Canvas 已连接".to_string())
    );
    assert_eq!(
        status(navigation::classify_auth_url(&url("https://oc.sjtu.edu.cn/login/canvas"))),
        ("canvas-login", "正在进入 jAccount".to_string())
    );
    assert_eq!(
        status(navigation::classify_auth_url(&url("https://v.sjtu.edu.cn/x"))),
        ("authorized", "课堂视频已授权".to_string())
    );
    assert_eq!(
        status(navigation::classify_auth_url(&url("https://example.com/login"))),
        ("error", "登录跳转到了未允许的地址".to_string())
    );
    assert_eq!(
        status(navigation::hidden_window_status()),
        ("canvas-login", "登录窗口已隐藏，可随时重新打开".to_string())
    );
}

#[test]
fn tokens_are_found_in_fragments() {
    let token = |text: &str| navigation::token_from_video_url(&url(text));
    assert_eq!(
        token("https://v.sjtu.edu.cn/ui/#/index?tokenId=a%2Bb+c").as_deref(),
        Some("a+b c")
    );
    assert_eq!(token("https://v.sjtu.edu.cn/ui/#/index?x=1&tokenId=2&tokenId=3").as_deref(), Some("2"));
    assert_eq!(token("https://v.sjtu.edu.cn/ui/#/index?tokenId").as_deref(), Some(""));
    assert_eq!(token("https://v.sjtu.edu.cn/ui/#/index?tokenid=1"), None);
    assert_eq!(token("https://v.sjtu.edu.cn/ui/#/index"), None);
    assert_eq!(token("https://v.sjtu.edu.cn/ui/?tokenId=1"), None);
    assert_eq!(token("https://oc.sjtu.edu.cn/#/index?tokenId=1"), None);
}

#[test]
fn the_page_of_the_video_service_carries_no_token() {
    let page = url(endpoints::VIDEO_PAGE_URL);
    assert_eq!(navigation::token_from_video_url(&page), None);
    assert!(navigation::allowed_navigation(&page));
    assert_eq!(navigation::classify_auth_url(&page).message, "课堂视频已授权");
}

#[test]
fn pairs_are_searched_by_name() {
    let pairs = vec![
        ("a".to_string(), "1".to_string()),
        ("b".to_string(), "2".to_string()),
        ("a".to_string(), "3".to_string()),
    ];
    assert_eq!(navigation::value_named(&pairs, "a").as_deref(), Some("1"));
    assert_eq!(navigation::value_named(&pairs, "b").as_deref(), Some("2"));
    assert_eq!(navigation::value_named(&pairs, "c"), None);
}

#[test]
fn waiting_for_the_token_ends() {
    let here = || url("https://v.sjtu.edu.cn/#/i?tokenId=t");
    let away = || url("https://oc.sjtu.edu.cn/");
    let limit: u128 = 35_000_000_000;
    assert!(matches!(navigation::poll_for_token(0, Ok(away())), TokenPoll::Wait));
    match navigation::poll_for_token(limit, Ok(here())) {
        TokenPoll::Found(token) => assert_eq!(token, "t"),
        other => panic!("{:?}", other),
    }
    match navigation::poll_for_token(limit + 1, Ok(here())) {
        TokenPoll::Failed(message) => assert_eq!(message, "课堂视频授权超时，请重新选择课程"),
        other => panic!("{:?}", other),
    }
    match navigation::poll_for_token(0, Err("gone".to_string())) {
        TokenPoll::Failed(message) => assert_eq!(message, "gone"),
        other => panic!("{:?}", other),
    }
}

fn page(href: &str) -> String {
    format!(
        "<html><body><a href='x?uuid=no'>a</a><a id='firefox_link' href=\"{}\">b</a></body></html>",
        href
    )
}

#[test]
fn the_identifier_is_read_from_the_login_page() {
    assert_eq!(
        login_page::extract_uuid(&page("jaccount://login?a=1&amp;uuid=ab-12&amp;b=2")).as_deref(),
        Ok("ab-12")
    );
    assert_eq!(login_page::extract_uuid(&page("jaccount://login?id=ab-12")).as_deref(), Ok("ab-12"));
    assert_eq!(
        login_page::extract_uuid(&page("jaccount://login?uuid=&amp;x=3")).as_deref(),
        Ok("3")
    );
}

#[test]
fn login_pages_without_an_entry_are_refused() {
    let missing = "未找到 jAccount 登录入口，页面结构可能已变化".to_string();
    assert_eq!(login_page::extract_uuid(""), Err(missing.clone()));
    assert_eq!(login_page::extract_uuid("<div id='firefox_link' href='uuid=1'>"), Err(missing.clone()));
    assert_eq!(login_page::extract_uuid("<a id='firefox_link'>"), Err(missing));
    assert_eq!(
        login_page::extract_uuid(&page("x?uuid=")),
        Err("无法从登录页解析 uuid".to_string())
    );
}

#[test]
fn identifiers_are_taken_from_addresses() {
    assert_eq!(login_page::uuid_from_href("uuid=1&uuid=2").as_deref(), Ok("1"));
    assert_eq!(login_page::uuid_from_href("plain").as_deref(), Ok("plain"));
    assert_eq!(login_page::uuid_from_href("plain&x").as_deref(), Ok("plain"));
    assert_eq!(login_page::uuid_from_href("").as_deref(), Err(&"无法从登录页解析 uuid".to_string()));
    assert_eq!(
        login_page::uuid_from_entry(Ok(Some("x?uuid=9".to_string()))).as_deref(),
        Ok("9")
    );
    assert_eq!(
        login_page::uuid_from_entry(Err("bad".to_string())).as_deref(),
        Err(&"bad".to_string())
    );
}
