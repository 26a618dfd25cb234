//! Downloads as they are asked for and as they are reported.

use vstd::prelude::*;

verus! {

/// What is to be downloaded of a lesson.
#[derive(Clone, Debug)]
pub struct DownloadRequest {
    pub lesson_id: String,
    pub lesson_title: String,
    pub begin_time: String,
    pub signals: Vec<String>,
    pub include_subtitles: bool,
    pub output_dir: Option<String>,
}

/// How far a download has come.
#[derive(Clone, Debug)]
pub struct DownloadProgress {
    pub task_id: String,
    pub lesson_id: String,
    pub file_name: String,
    pub stage: &'static str,
    pub downloaded: u64,
    pub total: Option<u64>,
    pub message: String,
}

/// What a [`DownloadProgress`] holds.
pub struct ProgressView {
    pub task_id: Seq<char>,
    pub lesson_id: Seq<char>,
    pub file_name: Seq<char>,
    pub stage: Seq<char>,
    pub downloaded: u64,
    pub total: Option<u64>,
    pub message: Seq<char>,
}

impl View for DownloadProgress {
    type V = ProgressView;

    open spec fn view(&self) -> ProgressView {
        ProgressView {
            task_id: self.task_id@,
            lesson_id: self.lesson_id@,
            file_name: self.file_name@,
            stage: self.stage@,
            downloaded: self.downloaded,
            total: self.total,
            message: self.message@,
        }
    }
}

/// What an optional report holds.
pub open spec fn report_view(report: Option<DownloadProgress>) -> Option<ProgressView> {
    match report {
        Some(progress) => Some(progress@),
        None => None,
    }
}

} // verus!
