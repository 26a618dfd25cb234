//! What the status codes of responses decide.

use vstd::prelude::*;

use crate::endpoints;
use crate::text;

verus! {

/// The status codes of success.
pub open spec fn is_success(status: u16) -> bool {
    200 <= status < 300
}

/// The status code of a response that holds only the part that was asked for.
pub const PARTIAL_CONTENT: u16 = 206;

/// Whether a status code is one of success.
pub fn status_is_success(status: u16) -> (r: bool)
    ensures
        r == is_success(status),
{
    200 <= status && status < 300
}

/// A status code as it is printed: the number and its usual name.
pub uninterp spec fn status_text(status: u16) -> Seq<char>;

/// `reqwest::StatusCode`'s `from_u16` and `to_string`: the status code as it is printed, which is
/// the function `status_text` of the number. For a number that is no status code it is the text
/// of the error.
#[verifier::external_body]
pub(crate) fn status_line(status: u16) -> (r: String)
    ensures
        r@ == status_text(status),
{
    match reqwest::StatusCode::from_u16(status) {
        Ok(code) => code.to_string(),
        Err(error) => error.to_string(),
    }
}

/// What a response is to be refused with, where it is.
pub open spec fn outcome_view(r: Result<(), String>) -> Result<(), Seq<char>> {
    match r {
        Ok(_) => Ok(()),
        Err(message) => Err(message@),
    }
}

/// What comes of the request for the picture of a QR code.
pub open spec fn qr_image_result(status: u16, line: Seq<char>) -> Result<(), Seq<char>> {
    if is_success(status) {
        Ok(())
    } else {
        Err("二维码接口返回 "@ + line)
    }
}

/// What comes of the request for the picture of a QR code, whose status is printed as `line`.
pub fn qr_image_outcome(status: u16, line: &str) -> (r: Result<(), String>)
    ensures
        outcome_view(r) == qr_image_result(status, line@),
{
    if status_is_success(status) {
        Ok(())
    } else {
        let mut message: String = "二维码接口返回 ".to_owned();
        message.append(line);
        Err(message)
    }
}

/// What comes of the request for the picture of a QR code.
pub fn check_qr_image(status: u16) -> (r: Result<(), String>)
    ensures
        outcome_view(r) == qr_image_result(status, status_text(status)),
{
    let line = status_line(status);
    qr_image_outcome(status, line.as_str())
}

/// What comes of entering the learning platform after the scan.
pub open spec fn canvas_login_result(status: u16, line: Seq<char>) -> Result<(), Seq<char>> {
    if is_success(status) || status == 302 {
        Ok(())
    } else {
        Err("Canvas 登录返回 "@ + line)
    }
}

/// What comes of entering the learning platform after the scan, with a status that is printed as
/// `line`.
pub fn canvas_login_outcome(status: u16, line: &str) -> (r: Result<(), String>)
    ensures
        outcome_view(r) == canvas_login_result(status, line@),
{
    if status_is_success(status) || status == 302 {
        Ok(())
    } else {
        let mut message: String = "Canvas 登录返回 ".to_owned();
        message.append(line);
        Err(message)
    }
}

/// What comes of entering the learning platform after the scan.
pub fn check_canvas_login(status: u16) -> (r: Result<(), String>)
    ensures
        outcome_view(r) == canvas_login_result(status, status_text(status)),
{
    let line = status_line(status);
    canvas_login_outcome(status, line.as_str())
}

/// What comes of the request for the list of courses.
pub open spec fn course_list_result(status: u16, line: Seq<char>) -> Result<(), Seq<char>> {
    if is_success(status) {
        Ok(())
    } else {
        Err("Canvas 返回 "@ + line + "，请重新扫码"@)
    }
}

/// What comes of the request for the list of courses, whose status is printed as `line`.
pub fn course_list_outcome(status: u16, line: &str) -> (r: Result<(), String>)
    ensures
        outcome_view(r) == course_list_result(status, line@),
{
    if status_is_success(status) {
        Ok(())
    } else {
        let mut message: String = "Canvas 返回 ".to_owned();
        message.append(line);
        message.append("，请重新扫码");
        Err(message)
    }
}

/// What comes of the request for the list of courses.
pub fn check_course_list(status: u16) -> (r: Result<(), String>)
    ensures
        outcome_view(r) == course_list_result(status, status_text(status)),
{
    let line = status_line(status);
    course_list_outcome(status, line.as_str())
}

/// What comes of the request for a video.
pub open spec fn video_result(status: u16, line: Seq<char>) -> Result<(), Seq<char>> {
    if is_success(status) {
        Ok(())
    } else {
        Err("视频服务返回 "@ + line)
    }
}

/// What comes of the request for a video, whose status is printed as `line`.
pub fn video_outcome(status: u16, line: &str) -> (r: Result<(), String>)
    ensures
        outcome_view(r) == video_result(status, line@),
{
    if status_is_success(status) {
        Ok(())
    } else {
        let mut message: String = "视频服务返回 ".to_owned();
        message.append(line);
        Err(message)
    }
}

/// What comes of the request for a video.
pub fn check_video(status: u16) -> (r: Result<(), String>)
    ensures
        outcome_view(r) == video_result(status, status_text(status)),
{
    let line = status_line(status);
    video_outcome(status, line.as_str())
}

/// What comes of completing the login after the scan: the service leads away from its own page
/// only once the scan is confirmed.
pub open spec fn express_login_result(final_url: Seq<char>) -> Result<(), Seq<char>> {
    if endpoints::JACCOUNT_EXPRESS_URL@.is_prefix_of(final_url) {
        Err("扫码尚未确认，或登录已过期，请刷新二维码重试"@)
    } else {
        Ok(())
    }
}

/// What comes of completing the login after the scan, where the last redirection led to
/// `final_url`.
pub fn check_express_login(final_url: &str) -> (r: Result<(), String>)
    ensures
        outcome_view(r) == express_login_result(final_url@),
{
    if text::starts_with(final_url, endpoints::JACCOUNT_EXPRESS_URL) {
        Err("扫码尚未确认，或登录已过期，请刷新二维码重试".to_owned())
    } else {
        Ok(())
    }
}

} // verus!
