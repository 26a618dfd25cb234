//! What the user is told when a step fails.

use vstd::prelude::*;

verus! {

/// The steps that can fail for a reason from outside.
#[derive(Clone, Copy, Debug, PartialEq, Eq)]
pub enum Failure {
    OpenLoginPage,
    ReadLoginPage,
    FetchQrImage,
    ReadQrImage,
    RefreshQrCode,
    PrepareChannel,
    ConnectChannel,
    ChannelBroken,
    CompleteLogin,
    ConnectCanvas,
    ReadCourses,
    CourseFormat,
    Authorize,
    AuthorizeFormat,
    ReadLessons,
    LessonFormat,
    ReadTracks,
    TrackFormat,
    RequestDownload,
    RequestFallback,
    CreateFile,
    DownloadBroken,
    WriteFile,
    FinishFile,
    ReadSubtitles,
    SubtitleFormat,
    WriteSubtitles,
    CreateDirectory,
}

/// What went wrong, without the reason.
pub open spec fn failure_context(failure: Failure) -> Seq<char> {
    match failure {
        Failure::OpenLoginPage => "打开登录页失败"@,
        Failure::ReadLoginPage => "读取登录页失败"@,
        Failure::FetchQrImage => "获取二维码失败"@,
        Failure::ReadQrImage => "读取二维码失败"@,
        Failure::RefreshQrCode => "刷新二维码失败"@,
        Failure::PrepareChannel => "建立扫码连接失败"@,
        Failure::ConnectChannel => "连接 jAccount 失败"@,
        Failure::ChannelBroken => "扫码连接中断"@,
        Failure::CompleteLogin => "完成扫码登录失败"@,
        Failure::ConnectCanvas => "连接 Canvas 失败"@,
        Failure::ReadCourses => "读取课程失败"@,
        Failure::CourseFormat => "课程数据格式异常"@,
        Failure::Authorize => "视频授权失败"@,
        Failure::AuthorizeFormat => "视频授权响应异常"@,
        Failure::ReadLessons => "读取讲次失败"@,
        Failure::LessonFormat => "讲次响应异常"@,
        Failure::ReadTracks => "读取视频分轨失败"@,
        Failure::TrackFormat => "视频分轨响应异常"@,
        Failure::RequestDownload => "下载请求失败"@,
        Failure::RequestFallback => "备用下载请求失败"@,
        Failure::CreateFile => "无法创建文件"@,
        Failure::DownloadBroken => "下载中断"@,
        Failure::WriteFile => "写入失败"@,
        Failure::FinishFile => "完成文件失败"@,
        Failure::ReadSubtitles => "读取字幕失败"@,
        Failure::SubtitleFormat => "字幕响应异常"@,
        Failure::WriteSubtitles => "字幕写入失败"@,
        Failure::CreateDirectory => "无法创建保存目录"@,
    }
}

/// What went wrong, and why.
pub open spec fn failure_message(failure: Failure, cause: Seq<char>) -> Seq<char> {
    failure_context(failure) + "："@ + cause
}

impl Failure {
    /// What went wrong, without the reason.
    pub fn context(self) -> (r: &'static str)
        ensures
            r@ == failure_context(self),
    {
        match self {
            Failure::OpenLoginPage => "打开登录页失败",
            Failure::ReadLoginPage => "读取登录页失败",
            Failure::FetchQrImage => "获取二维码失败",
            Failure::ReadQrImage => "读取二维码失败",
            Failure::RefreshQrCode => "刷新二维码失败",
            Failure::PrepareChannel => "建立扫码连接失败",
            Failure::ConnectChannel => "连接 jAccount 失败",
            Failure::ChannelBroken => "扫码连接中断",
            Failure::CompleteLogin => "完成扫码登录失败",
            Failure::ConnectCanvas => "连接 Canvas 失败",
            Failure::ReadCourses => "读取课程失败",
            Failure::CourseFormat => "课程数据格式异常",
            Failure::Authorize => "视频授权失败",
            Failure::AuthorizeFormat => "视频授权响应异常",
            Failure::ReadLessons => "读取讲次失败",
            Failure::LessonFormat => "讲次响应异常",
            Failure::ReadTracks => "读取视频分轨失败",
            Failure::TrackFormat => "视频分轨响应异常",
            Failure::RequestDownload => "下载请求失败",
            Failure::RequestFallback => "备用下载请求失败",
            Failure::CreateFile => "无法创建文件",
            Failure::DownloadBroken => "下载中断",
            Failure::WriteFile => "写入失败",
            Failure::FinishFile => "完成文件失败",
            Failure::ReadSubtitles => "读取字幕失败",
            Failure::SubtitleFormat => "字幕响应异常",
            Failure::WriteSubtitles => "字幕写入失败",
            Failure::CreateDirectory => "无法创建保存目录",
        }
    }

    /// What went wrong, and why.
    pub fn message(self, cause: &str) -> (r: String)
        ensures
            r@ == failure_message(self, cause@),
    {
        let mut r: String = self.context().to_owned();
        r.append("：");
        r.append(cause);
        r
    }
}

} // verus!
