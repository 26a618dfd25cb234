//! What the answers of the services come to, said of what they hold.

use vstd::prelude::*;

use crate::api;
use crate::endpoints;
use crate::failures;
use crate::failures::Failure;
use crate::http;
use crate::login_page;
use crate::navigation;
use crate::navigation::{AuthStatusView, TokenPollView, WebUrlView};
use crate::text;
use crate::text_laws;

verus! {

// ---------------------------------------------------------------------------------------------
// Status codes
// ---------------------------------------------------------------------------------------------

/// A response is taken where its status is one of the hundred of success, and otherwise refused
/// with the status as it is printed. The platform may also answer a login with a redirection.
pub proof fn law_statuses_decide(status: u16, line: Seq<char>)
    ensures
        http::is_success(status) <==> status / 100 == 2,
        http::qr_image_result(status, line) == if status / 100 == 2 {
            Ok::<(), Seq<char>>(())
        } else {
            Err("二维码接口返回 "@ + line)
        },
        http::canvas_login_result(status, line) == if status / 100 == 2 || status == 302 {
            Ok::<(), Seq<char>>(())
        } else {
            Err("Canvas 登录返回 "@ + line)
        },
        http::course_list_result(status, line) == if status / 100 == 2 {
            Ok::<(), Seq<char>>(())
        } else {
            Err("Canvas 返回 "@ + line + "，请重新扫码"@)
        },
        http::video_result(status, line) == if status / 100 == 2 {
            Ok::<(), Seq<char>>(())
        } else {
            Err("视频服务返回 "@ + line)
        },
{
}

/// A login is complete exactly where the last redirection led somewhere else than to a page below
/// the one that completes it.
pub proof fn law_logins_lead_away(front: Seq<char>, rest: Seq<char>)
    ensures
        http::express_login_result("https://jaccount.sjtu.edu.cn/jaccount/expresslogin"@ + rest)
            == Err::<(), Seq<char>>("扫码尚未确认，或登录已过期，请刷新二维码重试"@),
        http::express_login_result(front) is Ok || exists|tail: Seq<char>|
            front == #[trigger] ("https://jaccount.sjtu.edu.cn/jaccount/expresslogin"@ + tail),
{
    let express = "https://jaccount.sjtu.edu.cn/jaccount/expresslogin"@;
    assert((express + rest).subrange(0, express.len() as int) =~= express);
    if express.is_prefix_of(front) {
        let tail = front.skip(express.len() as int);
        assert(front =~= express + tail);
    }
}

// ---------------------------------------------------------------------------------------------
// Refusals and failures
// ---------------------------------------------------------------------------------------------

/// A refusal tells what was tried, the reason where the service gives one, and the status where it
/// gives one; only a token that has expired asks to log in again.
pub proof fn law_refusals_tell_everything(context: Seq<char>, reason: Seq<char>, status: i64)
    ensures
        api::api_error_text(Some(reason), None, context) == context + "："@ + reason,
        api::api_error_text(None, None, context) == context + "："@ + "服务未返回数据"@,
        api::api_error_text(Some(reason), Some(status), context) == context + "："@ + reason
            + "（状态 "@ + text::signed_decimal(status as int) + "）"@,
        api::api_error_text(None, Some(status), context) == context + "："@ + "服务未返回数据"@
            + "（状态 "@ + text::signed_decimal(status as int) + "）"@,
        forall|message: Option<Seq<char>>| #[trigger]
            api::refusal_text(message, None, context) == api::api_error_text(
                message,
                None,
                context,
            ),
        forall|message: Option<Seq<char>>| #[trigger]
            api::refusal_text(message, Some(status), context) == api::api_error_text(
                message,
                Some(status),
                context,
            ) + (if status == 115117 {
                "，请重新扫码登录"@
            } else {
                Seq::<char>::empty()
            }),
{
    assert(api::api_error_text(Some(reason), None, context) =~= context + "："@ + reason);
    assert(api::api_error_text(None, None, context) =~= context + "："@ + "服务未返回数据"@);
    assert(api::api_error_text(Some(reason), Some(status), context) =~= context + "："@ + reason
        + "（状态 "@ + text::signed_decimal(status as int) + "）"@);
    assert(api::api_error_text(None, Some(status), context) =~= context + "："@ + "服务未返回数据"@
        + "（状态 "@ + text::signed_decimal(status as int) + "）"@);
    assert forall|message: Option<Seq<char>>| #[trigger]
        api::refusal_text(message, Some(status), context) == api::api_error_text(
            message,
            Some(status),
            context,
        ) + (if status == 115117 {
            "，请重新扫码登录"@
        } else {
            Seq::<char>::empty()
        }) by {
        assert(api::refusal_text(message, Some(status), context) =~= api::api_error_text(
            message,
            Some(status),
            context,
        ) + (if status == 115117 {
            "，请重新扫码登录"@
        } else {
            Seq::<char>::empty()
        }));
    }
}

/// Every failure of the login tells the step that failed, and then its cause, whatever that is.
pub proof fn law_login_failures_tell_their_cause(cause: Seq<char>)
    ensures
        failures::failure_message(Failure::OpenLoginPage, cause) == "打开登录页失败"@ + "："@ + cause,
        failures::failure_message(Failure::ReadLoginPage, cause) == "读取登录页失败"@ + "："@ + cause,
        failures::failure_message(Failure::FetchQrImage, cause) == "获取二维码失败"@ + "："@ + cause,
        failures::failure_message(Failure::ReadQrImage, cause) == "读取二维码失败"@ + "："@ + cause,
        failures::failure_message(Failure::RefreshQrCode, cause) == "刷新二维码失败"@ + "："@ + cause,
        failures::failure_message(Failure::PrepareChannel, cause) == "建立扫码连接失败"@ + "："@
            + cause,
        failures::failure_message(Failure::ConnectChannel, cause) == "连接 jAccount 失败"@ + "："@
            + cause,
        failures::failure_message(Failure::ChannelBroken, cause) == "扫码连接中断"@ + "："@ + cause,
        failures::failure_message(Failure::CompleteLogin, cause) == "完成扫码登录失败"@ + "："@
            + cause,
        failures::failure_message(Failure::ConnectCanvas, cause) == "连接 Canvas 失败"@ + "："@
            + cause,
{
}

/// Every failure to read from the services tells the step that failed, and then its cause.
pub proof fn law_reading_failures_tell_their_cause(cause: Seq<char>)
    ensures
        failures::failure_message(Failure::ReadCourses, cause) == "读取课程失败"@ + "："@ + cause,
        failures::failure_message(Failure::CourseFormat, cause) == "课程数据格式异常"@ + "："@ + cause,
        failures::failure_message(Failure::Authorize, cause) == "视频授权失败"@ + "："@ + cause,
        failures::failure_message(Failure::AuthorizeFormat, cause) == "视频授权响应异常"@ + "："@
            + cause,
        failures::failure_message(Failure::ReadLessons, cause) == "读取讲次失败"@ + "："@ + cause,
        failures::failure_message(Failure::LessonFormat, cause) == "讲次响应异常"@ + "："@ + cause,
        failures::failure_message(Failure::ReadTracks, cause) == "读取视频分轨失败"@ + "："@ + cause,
        failures::failure_message(Failure::TrackFormat, cause) == "视频分轨响应异常"@ + "："@ + cause,
        failures::failure_message(Failure::ReadSubtitles, cause) == "读取字幕失败"@ + "："@ + cause,
        failures::failure_message(Failure::SubtitleFormat, cause) == "字幕响应异常"@ + "："@ + cause,
{
}

/// Every failure of a download tells the step that failed, and then its cause.
pub proof fn law_download_failures_tell_their_cause(cause: Seq<char>)
    ensures
        failures::failure_message(Failure::RequestDownload, cause) == "下载请求失败"@ + "："@ + cause,
        failures::failure_message(Failure::RequestFallback, cause) == "备用下载请求失败"@ + "："@
            + cause,
        failures::failure_message(Failure::CreateFile, cause) == "无法创建文件"@ + "："@ + cause,
        failures::failure_message(Failure::DownloadBroken, cause) == "下载中断"@ + "："@ + cause,
        failures::failure_message(Failure::WriteFile, cause) == "写入失败"@ + "："@ + cause,
        failures::failure_message(Failure::FinishFile, cause) == "完成文件失败"@ + "："@ + cause,
        failures::failure_message(Failure::WriteSubtitles, cause) == "字幕写入失败"@ + "："@ + cause,
        failures::failure_message(Failure::CreateDirectory, cause) == "无法创建保存目录"@ + "："@
            + cause,
{
}

// ---------------------------------------------------------------------------------------------
// Addresses
// ---------------------------------------------------------------------------------------------

/// A course is entered, a channel opened, a track addressed and a part of a file asked for by the
/// whole of the number or the text that names it.
pub proof fn law_addresses_name_what_they_are_for(number: nat, name: Seq<char>)
    ensures
        endpoints::lti_launch(number) == "https://oc.sjtu.edu.cn/courses/"@ + text::decimal(number)
            + "/external_tools/8329?display=borderless"@,
        endpoints::qr_channel(name) == "wss://jaccount.sjtu.edu.cn/jaccount/sub/"@ + name,
        endpoints::official_download(name)
            == "https://v.sjtu.edu.cn/jy-application-canvas-sjtu/directOnDemandPlay/downloadVideo?id="@
            + endpoints::base64_text(vstd::utf8::encode_utf8(name)),
        endpoints::range_from(number) == "bytes="@ + text::decimal(number) + "-"@,
{
}

/// Every address lies below the one of its service.
pub proof fn law_addresses_lie_with_their_services()
    ensures
        endpoints::CANVAS_LOGIN_URL@ == endpoints::CANVAS_ORIGIN@ + "/login/openid_connect"@,
        endpoints::COURSES_URL@ == endpoints::CANVAS_ORIGIN@ + "/api/v1/courses"@,
        endpoints::JACCOUNT_QR_URL@ == endpoints::JACCOUNT_ORIGIN@ + "/jaccount/qrcode"@,
        endpoints::JACCOUNT_EXPRESS_URL@ == endpoints::JACCOUNT_ORIGIN@
            + "/jaccount/expresslogin"@,
        endpoints::VIDEO_PAGE_URL@ == endpoints::VIDEO_ORIGIN@ + "/jy-application-canvas-sjtu-ui/"@,
{
    reveal_strlit("https://oc.sjtu.edu.cn");
    reveal_strlit("https://oc.sjtu.edu.cn/login/openid_connect");
    reveal_strlit("/login/openid_connect");
    reveal_strlit("https://oc.sjtu.edu.cn/api/v1/courses");
    reveal_strlit("/api/v1/courses");
    reveal_strlit("https://jaccount.sjtu.edu.cn");
    reveal_strlit("https://jaccount.sjtu.edu.cn/jaccount/qrcode");
    reveal_strlit("/jaccount/qrcode");
    reveal_strlit("https://jaccount.sjtu.edu.cn/jaccount/expresslogin");
    reveal_strlit("/jaccount/expresslogin");
    reveal_strlit("https://v.sjtu.edu.cn");
    reveal_strlit("https://v.sjtu.edu.cn/jy-application-canvas-sjtu-ui/");
    reveal_strlit("/jy-application-canvas-sjtu-ui/");
    assert(endpoints::CANVAS_LOGIN_URL@ =~= endpoints::CANVAS_ORIGIN@ + "/login/openid_connect"@);
    assert(endpoints::COURSES_URL@ =~= endpoints::CANVAS_ORIGIN@ + "/api/v1/courses"@);
    assert(endpoints::JACCOUNT_QR_URL@ =~= endpoints::JACCOUNT_ORIGIN@ + "/jaccount/qrcode"@);
    assert(endpoints::JACCOUNT_EXPRESS_URL@ =~= endpoints::JACCOUNT_ORIGIN@
        + "/jaccount/expresslogin"@);
    assert(endpoints::VIDEO_PAGE_URL@ =~= endpoints::VIDEO_ORIGIN@
        + "/jy-application-canvas-sjtu-ui/"@);
}

/// The value of a hexadecimal digit in upper case.
pub open spec fn hex_value(c: char) -> int {
    if '0' <= c <= '9' {
        c as int - '0' as int
    } else {
        c as int - 'A' as int + 10
    }
}

/// The characters that an URL holds as they are, beside letters and digits.
pub open spec fn is_plain(c: char) -> bool {
    ||| '0' <= c <= '9'
    ||| 'A' <= c <= 'Z'
    ||| 'a' <= c <= 'z'
    ||| c == '-'
    ||| c == '.'
    ||| c == '_'
    ||| c == '~'
}

/// An URL-encoded text is made byte by byte. A byte that is a plain character stands for itself,
/// and any other becomes a percent sign and two hexadecimal digits of which it is the value.
pub proof fn law_encoding_goes_by_bytes(bytes: Seq<u8>, byte: u8)
    ensures
        endpoints::encoded_bytes(Seq::empty()).len() == 0,
        endpoints::encoded_bytes(bytes.push(byte)) == endpoints::encoded_bytes(bytes)
            + endpoints::encoded_byte(byte),
        is_plain(byte as char) ==> endpoints::encoded_byte(byte) == seq![byte as char],
        !is_plain(byte as char) ==> {
            let code = endpoints::encoded_byte(byte);
            &&& code.len() == 3
            &&& code[0] == '%'
            &&& ('0' <= code[1] <= '9' || 'A' <= code[1] <= 'F')
            &&& ('0' <= code[2] <= '9' || 'A' <= code[2] <= 'F')
            &&& hex_value(code[1]) * 16 + hex_value(code[2]) == byte
        },
{
    assert(bytes.push(byte).drop_last() =~= bytes);
}

/// A text is encoded by its UTF-8 form.
pub proof fn law_texts_are_encoded_by_their_bytes(s: Seq<char>)
    ensures
        endpoints::url_encoded(s) == endpoints::encoded_bytes(vstd::utf8::encode_utf8(s)),
{
}

/// A text of plain characters is its own encoding.
pub proof fn law_plain_texts_stay(s: Seq<char>)
    requires
        forall|i: int| 0 <= i < s.len() ==> is_plain(#[trigger] s[i]),
    ensures
        endpoints::url_encoded(s) == s,
    decreases s.len(),
{
    if s.len() == 0 {
        assert(endpoints::url_encoded(s) =~= s);
    } else {
        let rest = s.drop_first();
        assert forall|i: int| 0 <= i < rest.len() implies is_plain(#[trigger] rest[i]) by {
            assert(rest[i] == s[i + 1]);
        }
        law_plain_texts_stay(rest);
        let byte = s[0] as u8;
        assert(is_plain(s[0]));
        let code = s[0] as u32;
        assert((code & 0x7F) as u8 == code as u8) by (bit_vector)
            requires
                code < 0x80,
        ;
        assert(vstd::utf8::encode_scalar(code) =~= Seq::empty().push(byte));
        assert(vstd::utf8::encode_utf8(s) =~= Seq::empty().push(byte) + vstd::utf8::encode_utf8(
            rest,
        ));
        lemma_encoding_joins(Seq::empty().push(byte), vstd::utf8::encode_utf8(rest));
        law_encoding_goes_by_bytes(Seq::empty(), byte);
        assert(endpoints::url_encoded(s) =~= seq![s[0]] + rest);
        assert(seq![s[0]] + rest =~= s);
    }
}

proof fn lemma_encoding_joins(a: Seq<u8>, b: Seq<u8>)
    ensures
        endpoints::encoded_bytes(a + b) == endpoints::encoded_bytes(a) + endpoints::encoded_bytes(
            b,
        ),
    decreases b.len(),
{
    if b.len() == 0 {
        assert(a + b =~= a);
        assert(endpoints::encoded_bytes(a) + endpoints::encoded_bytes(b)
            =~= endpoints::encoded_bytes(a));
    } else {
        lemma_encoding_joins(a, b.drop_last());
        assert((a + b).drop_last() =~= a + b.drop_last());
        assert((a + b).last() == b.last());
        assert(endpoints::encoded_bytes(a + b) =~= endpoints::encoded_bytes(a)
            + endpoints::encoded_bytes(b));
    }
}

// ---------------------------------------------------------------------------------------------
// The login window
// ---------------------------------------------------------------------------------------------

/// The login window may show the pages of the platform, of the login service and of the video
/// service, whatever their path, and no others.
pub proof fn law_the_window_stays_with_the_services(
    host: Seq<char>,
    path: Seq<char>,
    fragment: Option<Seq<char>>,
)
    ensures
        navigation::is_allowed(WebUrlView { host: Some(host), path, fragment }) <==> {
            ||| host == "oc.sjtu.edu.cn"@
            ||| host == "jaccount.sjtu.edu.cn"@
            ||| host == "v.sjtu.edu.cn"@
        },
        !navigation::is_allowed(WebUrlView { host: None, path, fragment }),
{
}

/// What the page in the login window means: the scan at the login service, on the platform the way
/// to it where `/login` stands in the path and otherwise the end of the login, and at the video
/// service the end of it; any other page is an error.
pub proof fn law_pages_have_their_meaning(
    host: Seq<char>,
    path: Seq<char>,
    fragment: Option<Seq<char>>,
)
    ensures
        ({
            let says_login = exists|i: int| #[trigger] text_laws::stands_at(path, "/login"@, i);
            let status = navigation::auth_status_of(
                WebUrlView { host: Some(host), path, fragment },
            );
            &&& host == "jaccount.sjtu.edu.cn"@ ==> status == (AuthStatusView {
                phase: "qr-login"@,
                message: "请使用交我办扫码"@,
            })
            &&& host == "oc.sjtu.edu.cn"@ && says_login ==> status == (AuthStatusView {
                phase: "canvas-login"@,
                message: "正在进入 jAccount"@,
            })
            &&& host == "oc.sjtu.edu.cn"@ && !says_login ==> status == (AuthStatusView {
                phase: "authorized"@,
                message: "Canvas 已连接"@,
            })
            &&& host == "v.sjtu.edu.cn"@ ==> status == (AuthStatusView {
                phase: "authorized"@,
                message: "课堂视频已授权"@,
            })
            &&& host != "jaccount.sjtu.edu.cn"@ && host != "oc.sjtu.edu.cn"@ && host
                != "v.sjtu.edu.cn"@ ==> status == (AuthStatusView {
                phase: "error"@,
                message: "登录跳转到了未允许的地址"@,
            })
        }),
        navigation::auth_status_of(WebUrlView { host: None, path, fragment }) == (AuthStatusView {
            phase: "error"@,
            message: "登录跳转到了未允许的地址"@,
        }),
{
    reveal_strlit("oc.sjtu.edu.cn");
    reveal_strlit("jaccount.sjtu.edu.cn");
    reveal_strlit("v.sjtu.edu.cn");
    assert("oc.sjtu.edu.cn"@.len() == 14);
    assert("jaccount.sjtu.edu.cn"@.len() == 20);
    assert("v.sjtu.edu.cn"@.len() == 13);
    text_laws::law_finding_the_first(path, "/login"@);
}

/// The value of a name is that of the first pair with exactly this name, however many pairs stand
/// before it, and there is none where no pair has it.
pub proof fn law_first_values_are_found(
    before: Seq<(Seq<char>, Seq<char>)>,
    name: Seq<char>,
    value: Seq<char>,
    behind: Seq<(Seq<char>, Seq<char>)>,
)
    requires
        forall|i: int| 0 <= i < before.len() ==> (#[trigger] before[i]).0 != name,
    ensures
        navigation::first_value(before, name) is None,
        navigation::first_value(before + seq![(name, value)] + behind, name) == Some(value),
    decreases before.len(),
{
    let all = before + seq![(name, value)] + behind;
    if before.len() > 0 {
        let rest = before.skip(1);
        assert forall|i: int| 0 <= i < rest.len() implies (#[trigger] rest[i]).0 != name by {
            assert(rest[i] == before[i + 1]);
        }
        law_first_values_are_found(rest, name, value, behind);
        assert(all.skip(1) =~= rest + seq![(name, value)] + behind);
        assert(all[0] == before[0]);
    } else {
        assert(all[0] == (name, value));
    }
}

/// The token is the first value named `tokenId` of what follows the first question mark in the
/// fragment of a page of the video service, whatever the path and whatever stands before the mark.
pub proof fn law_tokens_are_read(path: Seq<char>, head: Seq<char>, query: Seq<char>)
    requires
        text_laws::lacks(head, '?'),
    ensures
        navigation::token_of(
            WebUrlView {
                host: Some("v.sjtu.edu.cn"@),
                path,
                fragment: Some(head + seq!['?'] + query),
            },
        ) == navigation::first_value(navigation::form_pairs(query), "tokenId"@),
{
    text_laws::law_cutting_at_the_first(head, '?', query);
}

/// No other page carries a token.
pub proof fn law_other_pages_carry_no_token(url: WebUrlView)
    ensures
        url.host != Some("v.sjtu.edu.cn"@) ==> navigation::token_of(url) is None,
        url.fragment is None ==> navigation::token_of(url) is None,
        (url.fragment matches Some(fragment) && text_laws::lacks(fragment, '?'))
            ==> navigation::token_of(url) is None,
{
    if let Some(fragment) = url.fragment {
        if text_laws::lacks(fragment, '?') {
            text_laws::law_cutting_at_the_first(fragment, '?', Seq::empty());
        }
    }
}

/// The page is looked at for thirty-five seconds and not longer.
pub proof fn law_the_page_is_watched(
    nanoseconds: u128,
    current: Result<WebUrlView, Seq<char>>,
    error: Seq<char>,
    url: WebUrlView,
)
    ensures
        nanoseconds > 35_000_000_000 ==> navigation::poll_result(nanoseconds, current)
            == TokenPollView::Failed("课堂视频授权超时，请重新选择课程"@),
        nanoseconds <= 35_000_000_000 ==> {
            &&& navigation::poll_result(nanoseconds, Err(error)) == TokenPollView::Failed(error)
            &&& navigation::poll_result(nanoseconds, Ok(url)) == match navigation::token_of(url) {
                Some(token) => TokenPollView::Found(token),
                None => TokenPollView::Wait,
            }
        },
{
}

// ---------------------------------------------------------------------------------------------
// The login page
// ---------------------------------------------------------------------------------------------

/// The identifier is read from the address of the entry that the page shows, and a page without an
/// entry, or a search that fails, is told.
pub proof fn law_the_entry_is_read(html: Seq<char>, href: Seq<char>, error: Seq<char>)
    ensures
        login_page::page_uuid(html) == login_page::entry_result(
            login_page::attribute_of_first(html, "a#firefox_link"@, "href"@),
        ),
        login_page::entry_result(Ok(Some(href))) == match login_page::uuid_of(href) {
            Some(uuid) => Ok::<Seq<char>, Seq<char>>(uuid),
            None => Err("无法从登录页解析 uuid"@),
        },
        login_page::entry_result(Ok(None)) == Err::<Seq<char>, Seq<char>>(
            "未找到 jAccount 登录入口，页面结构可能已变化"@,
        ),
        login_page::entry_result(Err(error)) == Err::<Seq<char>, Seq<char>>(error),
{
}

/// An address that names the identifier gives it, up to the next `&` or to the end.
pub proof fn law_named_identifiers_are_read(head: Seq<char>, uuid: Seq<char>, tail: Seq<char>)
    requires
        forall|i: int| #[trigger]
            text_laws::stands_at(head + "uuid="@ + uuid + tail, "uuid="@, i) ==> i >= head.len(),
        uuid.len() > 0,
        text_laws::lacks(uuid, '&'),
        tail.len() == 0 || tail[0] == '&',
    ensures
        login_page::uuid_of(head + "uuid="@ + uuid + tail) == Some(uuid),
{
    let href = head + "uuid="@ + uuid + tail;
    assert(href =~= head + "uuid="@ + (uuid + tail));
    lemma_first_place(href, "uuid="@, head, uuid + tail);
    login_page::law_named_uuid_is_found(head, uuid, tail);
}

/// Whether `uuid=` stands nowhere in an address, or is followed by nothing where it stands first.
pub open spec fn names_nothing(href: Seq<char>) -> bool {
    match text::find(href, "uuid="@) {
        Some(i) => i + 5 >= href.len() || href[i as int + 5] == '&',
        None => true,
    }
}

/// An address that does not name the identifier, or names an empty one, gives what stands behind
/// its last equals sign, up to the next `&` or to the end; nothing there is no identifier.
pub proof fn law_unnamed_identifiers_are_read(head: Seq<char>, uuid: Seq<char>, tail: Seq<char>)
    requires
        names_nothing(head + seq!['='] + uuid + tail),
        text_laws::lacks(uuid, '&'),
        text_laws::lacks(uuid + tail, '='),
        tail.len() == 0 || tail[0] == '&',
    ensures
        login_page::uuid_of(head + seq!['='] + uuid + tail) == if uuid.len() > 0 {
            Some(uuid)
        } else {
            None
        },
{
    let href = head + seq!['='] + uuid + tail;
    assert(href =~= head + seq!['='] + (uuid + tail));
    text_laws::law_cutting_at_the_last(head, '=', uuid + tail);
    lemma_up_to_the_mark(uuid, tail);
    lemma_nothing_is_named(href);
}

/// An address without an equals sign gives what stands before its first `&`.
pub proof fn law_addresses_without_names_are_read(uuid: Seq<char>, tail: Seq<char>)
    requires
        text_laws::lacks(uuid, '&'),
        text_laws::lacks(uuid + tail, '='),
        tail.len() == 0 || tail[0] == '&',
    ensures
        login_page::uuid_of(uuid + tail) == if uuid.len() > 0 {
            Some(uuid)
        } else {
            None
        },
{
    let href = uuid + tail;
    text_laws::law_cutting_at_the_last(Seq::empty(), '=', href);
    lemma_up_to_the_mark(uuid, tail);
    assert(text::find(href, "uuid="@) is None) by {
        reveal_strlit("uuid=");
        text_laws::law_finding_the_first(href, "uuid="@);
        if let Some(i) = text::find(href, "uuid="@) {
            let at = i as int;
            assert(href.subrange(at, at + 5)[4] == '=');
            assert(href[at + 4] == '=');
        }
    }
}

proof fn lemma_nothing_is_named(href: Seq<char>)
    requires
        names_nothing(href),
    ensures
        ({
            let last = text::before(text::behind_last(href, '='), '&');
            login_page::uuid_of(href) == if last.len() > 0 {
                Some(last)
            } else {
                None
            }
        }),
{
    if let Some(i) = text::find(href, "uuid="@) {
        let rest = href.skip(i as int + 5);
        reveal_strlit("uuid=");
        text_laws::law_finding_the_first(href, "uuid="@);
        assert(text_laws::stands_at(href, "uuid="@, i as int));
        assert(rest.len() == 0 || rest[0] == '&');
        assert(Seq::<char>::empty() + rest =~= rest);
        lemma_up_to_the_mark(Seq::empty(), rest);
    }
}

proof fn lemma_first_place(s: Seq<char>, pattern: Seq<char>, head: Seq<char>, tail: Seq<char>)
    requires
        s == head + pattern + tail,
        forall|i: int| #[trigger] text_laws::stands_at(s, pattern, i) ==> i >= head.len(),
    ensures
        text::find(s, pattern) == Some(head.len()),
{
    let at = head.len() as int;
    assert(text_laws::stands_at(s, pattern, at)) by {
        assert(s.subrange(at, at + pattern.len()) =~= pattern);
    }
    lemma_first_is(s, pattern, at);
}

proof fn lemma_first_is(s: Seq<char>, pattern: Seq<char>, at: int)
    requires
        text_laws::stands_at(s, pattern, at),
        forall|i: int| #[trigger] text_laws::stands_at(s, pattern, i) ==> i >= at,
    ensures
        text::find(s, pattern) == Some(at as nat),
{
    text_laws::law_finding_the_first(s, pattern);
    match text::find(s, pattern) {
        Some(i) => {
            assert(text_laws::stands_at(s, pattern, i as int));
            assert(!(at < i));
        },
        None => {},
    }
}

proof fn lemma_up_to_the_mark(name: Seq<char>, tail: Seq<char>)
    requires
        text_laws::lacks(name, '&'),
        tail.len() == 0 || tail[0] == '&',
    ensures
        text::before(name + tail, '&') == name,
{
    if tail.len() == 0 {
        assert(name + tail =~= name);
        text_laws::law_cutting_at_the_first(name, '&', Seq::empty());
    } else {
        assert(name + tail =~= name + seq!['&'] + tail.skip(1));
        text_laws::law_cutting_at_the_first(name, '&', tail.skip(1));
    }
}

} // verus!
