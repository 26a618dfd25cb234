//! The answers of the video service.

use vstd::prelude::*;

use crate::text;

verus! {

/// What every answer of the video service is wrapped in.
#[derive(Debug)]
pub struct ApiEnvelope<T> {
    pub data: Option<T>,
    pub message: Option<String>,
    pub status: Option<i64>,
}

/// The course that a session of the video service was opened for.
#[derive(Clone, Debug)]
pub struct AccessParams {
    pub cour_id: String,
    pub lti_course_id: String,
    pub course_name: String,
}

/// What the video service gives for a token.
#[derive(Debug)]
pub struct ExchangeData {
    pub token: String,
    pub params: AccessParams,
}

/// A session of the video service.
#[derive(Clone, Debug)]
pub struct VideoSession {
    pub token: String,
    pub params: AccessParams,
}

/// One page of the list of lessons.
#[derive(Debug)]
pub struct LessonPage {
    pub records: Vec<serde_json::Value>,
}

/// The recording of one lesson.
#[derive(Clone, Debug)]
pub struct VideoDetail {
    pub cour_id: String,
    pub video_play_response_vo_list: Vec<VideoTrack>,
}

/// One track of a recording.
#[derive(Clone, Debug)]
pub struct VideoTrack {
    pub id: String,
    pub cdvi_view_num: i64,
    pub rtmp_url_hdv: String,
}

/// The text of the number that an answer gives for its failure.
pub open spec fn status_note(status: Option<i64>) -> Seq<char> {
    match status {
        Some(code) => "（状态 "@ + text::signed_decimal(code as int) + "）"@,
        None => Seq::empty(),
    }
}

/// What the user is told of an answer that holds no data.
pub open spec fn api_error_text(
    message: Option<Seq<char>>,
    status: Option<i64>,
    context: Seq<char>,
) -> Seq<char> {
    let reason = match message {
        Some(given) => given,
        None => "服务未返回数据"@,
    };
    context + "："@ + reason + status_note(status)
}

/// What the user is told of an answer that holds no data: what was tried, what the service says
/// about it, and the number that it gives.
pub fn api_error<T>(response: &ApiEnvelope<T>, context: &str) -> (r: String)
    ensures
        r@ == api_error_text(text::option_view(response.message), response.status, context@),
{
    let mut r: String = context.to_owned();
    r.append("：");
    match &response.message {
        Some(given) => r.append(given.as_str()),
        None => r.append("服务未返回数据"),
    }
    let ghost so_far = r@;
    match response.status {
        Some(code) => {
            let digits = text::signed_decimal_text(code);
            r.append("（状态 ");
            r.append(digits.as_str());
            r.append("）");
            assert(r@ == so_far + status_note(response.status));
        },
        None => {
            assert(r@ == so_far + status_note(response.status));
        },
    }
    r
}

/// The status of an answer to a token that has expired.
pub const EXPIRED_STATUS: i64 = 115117;

/// What the user is told of an answer that refuses a request: what was tried and why it failed,
/// and to log in again where the token has expired.
pub open spec fn refusal_text(
    message: Option<Seq<char>>,
    status: Option<i64>,
    context: Seq<char>,
) -> Seq<char> {
    if status == Some(EXPIRED_STATUS) {
        api_error_text(message, status, context) + "，请重新扫码登录"@
    } else {
        api_error_text(message, status, context)
    }
}

/// Whether a message asks the user to log in again.
pub open spec fn asks_to_log_in(message: Seq<char>) -> bool {
    "，请重新扫码登录"@.is_suffix_of(message)
}

/// Whether an answer says that the token has expired.
pub fn is_expired<T>(response: &ApiEnvelope<T>) -> (r: bool)
    ensures
        r == (response.status == Some(EXPIRED_STATUS)),
{
    match response.status {
        Some(code) => code == EXPIRED_STATUS,
        None => false,
    }
}

/// What the user is told of an answer that refuses a request.
pub fn refusal<T>(response: &ApiEnvelope<T>, context: &str) -> (r: String)
    ensures
        r@ == refusal_text(text::option_view(response.message), response.status, context@),
{
    let mut r = api_error(response, context);
    if is_expired(response) {
        r.append("，请重新扫码登录");
    }
    r
}

/// The data of an answer, or what the user is told where it holds none.
pub fn data_or_error<T>(envelope: ApiEnvelope<T>, context: &str) -> (r: Result<T, String>)
    ensures
        match r {
            Ok(data) => envelope.data == Some(data),
            Err(message) => envelope.data is None && message@ == refusal_text(
                text::option_view(envelope.message),
                envelope.status,
                context@,
            ),
        },
{
    let error = refusal(&envelope, context);
    match envelope.data {
        Some(data) => Ok(data),
        None => Err(error),
    }
}

/// The session that the video service opens for a token, or what the user is told where it opens
/// none.
pub fn open_session(envelope: ApiEnvelope<ExchangeData>) -> (r: Result<VideoSession, String>)
    ensures
        match r {
            Ok(session) => envelope.data matches Some(data) && session.token == data.token
                && session.params == data.params,
            Err(message) => envelope.data is None && message@ == refusal_text(
                text::option_view(envelope.message),
                envelope.status,
                "视频授权失败"@,
            ),
        },
{
    let data = data_or_error(envelope, "视频授权失败")?;
    Ok(VideoSession { token: data.token, params: data.params })
}

/// What the user is told of an answer to an expired token asks to log in again.
pub proof fn law_expired_tokens_ask_to_log_in(message: Option<Seq<char>>, context: Seq<char>)
    ensures
        asks_to_log_in(refusal_text(message, Some(EXPIRED_STATUS), context)),
{
    let told = api_error_text(message, Some(EXPIRED_STATUS), context);
    let whole = refusal_text(message, Some(EXPIRED_STATUS), context);
    assert(whole.subrange(told.len() as int, whole.len() as int) == "，请重新扫码登录"@);
}

} // verus!
