use canvas_pocket::api::{AccessParams, ApiEnvelope, VideoDetail, VideoSession, VideoTrack};
use canvas_pocket::download_task::{
    self, DownloadTask, TaskAction, TaskEvent, TaskPhase, TaskStep,
};
use canvas_pocket::progress::{DownloadProgress, DownloadRequest};
use canvas_pocket::subtitles::{SubtitleCue, SubtitleData};
use canvas_pocket::track_download::{TrackAction, TrackDownload, TrackEvent, TrackPhase, TrackStep};

fn text(s: &str) -> String {
    s.to_string()
}

fn session() -> VideoSession {
    VideoSession {
        token: text("tok"),
        params: AccessParams {
            cour_id: text("c"),
            lti_course_id: text("l"),
            course_name: text("n"),
        },
    }
}

fn request(signals: &[&str], include_subtitles: bool) -> DownloadRequest {
    DownloadRequest {
        lesson_id: text("L1"),
        lesson_title: text("课"),
        begin_time: text("2026-07-04 08:00"),
        signals: signals.iter().map(|s| s.to_string()).collect(),
        include_subtitles,
        output_dir: Some(text("/videos")),
    }
}

fn track(id: &str, code: i64) -> VideoTrack {
    VideoTrack { id: text(id), cdvi_view_num: code, rtmp_url_hdv: format!("https://cdn/{}", id) }
}

fn download() -> TrackDownload {
    TrackDownload::new(&session(), &request(&["PPT"], false), &track("video-1", 3), false, 0, "T")
}

/// A download whose answer is waited for, with `existing` bytes of an earlier one.
fn requested(existing: Option<u64>) -> TrackDownload {
    let mut d = download();
    d.step(TrackEvent::Begin);
    d.step(TrackEvent::FileMissing);
    d.step(TrackEvent::PartMeasured(existing));
    d
}

fn seen(report: &Option<DownloadProgress>) -> Option<(&'static str, u64, Option<u64>, &str)> {
    report.as_ref().map(|p| (p.stage, p.downloaded, p.total, p.message.as_str()))
}

fn failure(step: TrackStep) -> String {
    assert!(step.report.is_none());
    match step.action {
        TrackAction::Fail(message) => message,
        other => panic!("{:?}", other),
    }
}

fn opened(step: &TrackStep) -> (&str, bool) {
    match &step.action {
        TrackAction::OpenPart { file_name, append } => (file_name.as_str(), *append),
        other => panic!("{:?}", other),
    }
}

#[test]
fn a_file_that_is_there_is_not_downloaded() {
    for (size, downloaded) in [(Some(9u64), 9u64), (None, 0)] {
        let mut d = download();
        match d.step(TrackEvent::Begin).action {
            TrackAction::CheckFile { file_name } => assert_eq!(file_name, "课_2026-07-04_PPT.mp4"),
            other => panic!("{:?}", other),
        }
        let step = d.step(TrackEvent::FileFound(size));
        assert_eq!(seen(&step.report), Some(("completed", downloaded, size, "文件已存在")));
        let p = step.report.unwrap();
        assert_eq!((p.task_id.as_str(), p.lesson_id.as_str()), ("T", "L1"));
        assert_eq!(p.file_name, "课_2026-07-04_PPT.mp4");
        assert!(matches!(step.action, TrackAction::Succeed));
        assert_eq!(d.phase, TrackPhase::Done);
    }
}

#[test]
fn a_track_is_downloaded_from_the_start() {
    let mut d = download();
    d.step(TrackEvent::Begin);
    match d.step(TrackEvent::FileMissing).action {
        TrackAction::MeasurePart { file_name } => {
            assert_eq!(file_name, "课_2026-07-04_PPT.mp4.part")
        }
        other => panic!("{:?}", other),
    }
    match d.step(TrackEvent::PartMeasured(None)).action {
        TrackAction::RequestOfficial { url, token, range } => {
            assert_eq!(
                url,
                "https://v.sjtu.edu.cn/jy-application-canvas-sjtu/directOnDemandPlay/downloadVideo?id=dmlkZW8tMQ=="
            );
            assert_eq!(token, "tok");
            assert_eq!(range, None);
        }
        other => panic!("{:?}", other),
    }
    let step = d.step(TrackEvent::OfficialAnswered { status: 200, length: Some(10) });
    assert_eq!(opened(&step), ("课_2026-07-04_PPT.mp4.part", false));
    assert!(matches!(d.step(TrackEvent::PartOpened).action, TrackAction::ReadChunk));
    assert!(matches!(d.step(TrackEvent::ChunkRead(4)).action, TrackAction::WriteChunk));
    let step = d.step(TrackEvent::ChunkWritten);
    assert_eq!(seen(&step.report), Some(("downloading", 4, Some(10), "正在下载")));
    assert!(matches!(step.action, TrackAction::ReadChunk));
    d.step(TrackEvent::ChunkRead(6));
    let step = d.step(TrackEvent::ChunkWritten);
    assert_eq!(seen(&step.report), Some(("downloading", 10, Some(10), "正在下载")));
    assert!(matches!(d.step(TrackEvent::ChunksEnded).action, TrackAction::Flush));
    match d.step(TrackEvent::Flushed).action {
        TrackAction::Rename { from, to } => {
            assert_eq!(from, "课_2026-07-04_PPT.mp4.part");
            assert_eq!(to, "课_2026-07-04_PPT.mp4");
        }
        other => panic!("{:?}", other),
    }
    let step = d.step(TrackEvent::Renamed);
    assert_eq!(seen(&step.report), Some(("completed", 10, Some(10), "视频下载完成")));
    assert!(matches!(step.action, TrackAction::Succeed));
    assert!(matches!(d.step(TrackEvent::Renamed).action, TrackAction::Nothing));
}

#[test]
fn a_track_is_continued() {
    let mut d = download();
    d.step(TrackEvent::Begin);
    d.step(TrackEvent::FileMissing);
    match d.step(TrackEvent::PartMeasured(Some(100))).action {
        TrackAction::RequestOfficial { range, .. } => {
            assert_eq!(range.as_deref(), Some("bytes=100-"))
        }
        other => panic!("{:?}", other),
    }
    let step = d.step(TrackEvent::OfficialAnswered { status: 206, length: Some(20) });
    assert_eq!(opened(&step), ("课_2026-07-04_PPT.mp4.part", true));
    d.step(TrackEvent::PartOpened);
    d.step(TrackEvent::ChunkRead(20));
    let step = d.step(TrackEvent::ChunkWritten);
    assert_eq!(seen(&step.report), Some(("downloading", 120, Some(120), "正在下载")));
}

#[test]
fn a_whole_answer_replaces_what_was_there() {
    let mut d = requested(Some(100));
    let step = d.step(TrackEvent::OfficialAnswered { status: 200, length: None });
    assert!(!opened(&step).1);
    d.step(TrackEvent::PartOpened);
    d.step(TrackEvent::ChunkRead(5));
    let step = d.step(TrackEvent::ChunkWritten);
    assert_eq!(seen(&step.report), Some(("downloading", 5, None, "正在下载")));
    let mut d = requested(Some(0));
    let step = d.step(TrackEvent::OfficialAnswered { status: 206, length: Some(1) });
    assert!(!opened(&step).1);
}

#[test]
fn the_second_address_is_tried() {
    let mut d = requested(None);
    match d.step(TrackEvent::OfficialAnswered { status: 404, length: None }).action {
        TrackAction::RequestFallback { url } => assert_eq!(url, "https://cdn/video-1"),
        other => panic!("{:?}", other),
    }
    let step = d.step(TrackEvent::FallbackAnswered { status: 200, length: Some(3) });
    assert!(!opened(&step).1);
    assert_eq!(d.total, Some(3));
    let mut d = requested(Some(7));
    d.step(TrackEvent::OfficialAnswered { status: 500, length: None });
    let step = d.step(TrackEvent::FallbackAnswered { status: 206, length: Some(3) });
    assert!(opened(&step).1);
    assert_eq!(d.total, Some(10));
}

#[test]
fn failures_of_a_track_are_told() {
    let fail = |mut d: TrackDownload, phase: TrackPhase, event: TrackEvent| {
        d.phase = phase;
        let message = failure(d.step(event));
        assert_eq!(d.phase, TrackPhase::Failed);
        message
    };
    let x = || text("x");
    assert_eq!(
        fail(download(), TrackPhase::RequestingOfficial, TrackEvent::OfficialFailed(x())),
        "下载请求失败：x"
    );
    assert_eq!(
        fail(download(), TrackPhase::RequestingFallback, TrackEvent::FallbackFailed(x())),
        "备用下载请求失败：x"
    );
    assert_eq!(
        fail(
            download(),
            TrackPhase::RequestingFallback,
            TrackEvent::FallbackAnswered { status: 403, length: None }
        ),
        "视频服务返回 403 Forbidden"
    );
    assert_eq!(
        fail(download(), TrackPhase::OpeningPart, TrackEvent::PartNotOpened(x())),
        "无法创建文件：x"
    );
    assert_eq!(
        fail(download(), TrackPhase::ReadingChunk, TrackEvent::ChunkNotRead(x())),
        "下载中断：x"
    );
    assert_eq!(
        fail(download(), TrackPhase::WritingChunk, TrackEvent::ChunkNotWritten(x())),
        "写入失败：x"
    );
    assert_eq!(fail(download(), TrackPhase::Flushing, TrackEvent::NotFlushed(x())), "x");
    assert_eq!(
        fail(download(), TrackPhase::Renaming, TrackEvent::NotRenamed(x())),
        "完成文件失败：x"
    );
}

#[test]
fn sizes_that_cannot_be_counted_are_seen() {
    let d = requested(Some(1));
    assert!(!d.can_count(&TrackEvent::OfficialAnswered { status: 206, length: Some(u64::MAX) }));
    assert!(d.can_count(&TrackEvent::OfficialAnswered { status: 206, length: Some(u64::MAX - 1) }));
    assert!(d.can_count(&TrackEvent::OfficialAnswered { status: 200, length: Some(u64::MAX) }));
    assert!(!d.can_count(&TrackEvent::FallbackAnswered { status: 206, length: Some(u64::MAX) }));
    assert!(d.can_count(&TrackEvent::FallbackAnswered { status: 206, length: None }));
    let mut d = download();
    d.downloaded = u64::MAX;
    d.pending = 1;
    assert!(!d.can_count(&TrackEvent::ChunkWritten));
    d.pending = 0;
    assert!(d.can_count(&TrackEvent::ChunkWritten));
}

#[test]
fn wanted_tracks_are_chosen_in_order() {
    let tracks = || vec![track("a", 0), track("b", 3), track("c", 9), track("d", 0)];
    let ids = |signals: &[&str]| {
        let names: Vec<String> = signals.iter().map(|s| s.to_string()).collect();
        download_task::wanted_tracks(&names, tracks())
            .into_iter()
            .map(|t| t.id)
            .collect::<Vec<String>>()
    };
    assert_eq!(ids(&["PPT", "教师"]), vec!["a", "b", "d"]);
    assert_eq!(ids(&["视频"]), vec!["c"]);
    assert_eq!(ids(&["合成"]), Vec::<String>::new());
    assert_eq!(ids(&[]), Vec::<String>::new());
}

#[test]
fn a_download_needs_a_session() {
    assert_eq!(
        download_task::begin_download(None, request(&[], false)).unwrap_err(),
        "请先选择课程并读取讲次"
    );
}

#[test]
fn tasks_have_random_names() {
    let a = download_task::begin_download(Some(session()), request(&[], false)).unwrap();
    let b = download_task::begin_download(Some(session()), request(&[], false)).unwrap();
    assert_ne!(a.task_id, b.task_id);
    for id in [&a.task_id, &b.task_id] {
        let parsed = uuid::Uuid::parse_str(id).unwrap();
        assert_eq!(parsed.get_version_num(), 4);
        assert_eq!(&parsed.to_string(), id);
        let chars: Vec<char> = id.chars().collect();
        assert_eq!(chars.len(), 36);
        assert_eq!(chars[14], '4');
        assert!("89ab".contains(chars[19]));
    }
    assert_eq!(a.phase, TaskPhase::Idle);
    assert_eq!(a.session.token, "tok");
    assert_eq!(a.request.lesson_id, "L1");
}

fn task(signals: &[&str], include_subtitles: bool) -> DownloadTask {
    DownloadTask::new(session(), request(signals, include_subtitles), text("T"))
}

/// A task that waits for the tracks of its lesson.
fn reading(signals: &[&str], include_subtitles: bool) -> DownloadTask {
    let mut t = task(signals, include_subtitles);
    t.step(TaskEvent::Begin);
    t.step(TaskEvent::SlotGranted);
    t.step(TaskEvent::DirectoryCreated);
    t.step(TaskEvent::ClientBuilt);
    t
}

fn detail(tracks: Vec<VideoTrack>) -> TaskEvent {
    TaskEvent::DetailAnswered(ApiEnvelope {
        data: Some(VideoDetail { cour_id: text("course"), video_play_response_vo_list: tracks }),
        message: None,
        status: None,
    })
}

fn started(step: TaskStep) -> TrackDownload {
    assert!(step.report.is_none());
    match step.action {
        TaskAction::DownloadTrack(track) => track,
        other => panic!("{:?}", other),
    }
}

fn failed(step: TaskStep, message: &str) {
    let p = step.report.unwrap();
    assert_eq!(
        (p.stage, p.downloaded, p.total, p.message.as_str()),
        ("failed", 0, None, message)
    );
    assert_eq!((p.task_id.as_str(), p.lesson_id.as_str(), p.file_name.as_str()), ("T", "L1", "课"));
    assert!(matches!(step.action, TaskAction::End));
}

#[test]
fn a_lesson_is_downloaded() {
    let mut t = task(&["教师", "PPT"], true);
    let step = t.step(TaskEvent::Begin);
    assert_eq!(seen(&step.report), Some(("queued", 0, None, "等待下载位置")));
    assert_eq!(step.report.unwrap().file_name, "课");
    assert!(matches!(step.action, TaskAction::AwaitSlot));
    match t.step(TaskEvent::SlotGranted).action {
        TaskAction::CreateDirectory { chosen } => assert_eq!(chosen.as_deref(), Some("/videos")),
        other => panic!("{:?}", other),
    }
    assert!(matches!(t.step(TaskEvent::DirectoryCreated).action, TaskAction::BuildClient));
    match t.step(TaskEvent::ClientBuilt).action {
        TaskAction::RequestDetail { token, lesson_id } => {
            assert_eq!((token.as_str(), lesson_id.as_str()), ("tok", "L1"))
        }
        other => panic!("{:?}", other),
    }
    let tracks = vec![track("a", 0), track("x", 1), track("b", 3)];
    let first = started(t.step(detail(tracks)));
    assert_eq!(first.track_id, "a");
    assert_eq!(first.file_name, "课_2026-07-04_教师.mp4");
    assert_eq!((first.task_id.as_str(), first.token.as_str()), ("T", "tok"));
    let second = started(t.step(TaskEvent::TrackSucceeded));
    assert_eq!(second.track_id, "b");
    match t.step(TaskEvent::TrackSucceeded).action {
        TaskAction::RequestSubtitles { token, course_id } => {
            assert_eq!((token.as_str(), course_id.as_str()), ("tok", "course"))
        }
        other => panic!("{:?}", other),
    }
    let cue = SubtitleCue { bg: 0, ed: 1000, res: text("a") };
    let step = t.step(TaskEvent::SubtitlesAnswered(ApiEnvelope {
        data: Some(SubtitleData { after_assembly_list: vec![cue] }),
        message: None,
        status: None,
    }));
    assert_eq!(seen(&step.report), Some(("writing-subtitles", 0, None, "正在写入字幕")));
    match step.action {
        TaskAction::WriteSubtitles { file_name, content } => {
            assert_eq!(file_name, "课_2026-07-04_AI字幕.srt");
            assert_eq!(content, "1\n00:00:00,000 --> 00:00:01,000\na\n\n");
        }
        other => panic!("{:?}", other),
    }
    let step = t.step(TaskEvent::SubtitlesWritten);
    assert!(step.report.is_none());
    match step.action {
        TaskAction::WriteSubtitles { file_name, content } => {
            assert_eq!(file_name, "课_2026-07-04_AI字幕.vtt");
            assert_eq!(
                content,
                "WEBVTT\n\nNOTE AI 生成字幕，仅供参考\n\n1\n00:00:00.000 --> 00:00:01.000\na\n\n"
            );
        }
        other => panic!("{:?}", other),
    }
    let step = t.step(TaskEvent::SubtitlesWritten);
    assert_eq!(seen(&step.report), Some(("completed", 0, None, "字幕已保存")));
    assert!(matches!(step.action, TaskAction::End));
    let step = t.step(TaskEvent::SubtitlesWritten);
    assert!(step.report.is_none());
    assert!(matches!(step.action, TaskAction::Nothing));
}

#[test]
fn a_lesson_without_subtitles_ends_behind_its_tracks() {
    let mut t = reading(&["PPT"], false);
    started(t.step(detail(vec![track("b", 3)])));
    let step = t.step(TaskEvent::TrackSucceeded);
    assert!(step.report.is_none());
    assert!(matches!(step.action, TaskAction::End));
    let mut t = reading(&["合成"], false);
    assert!(matches!(t.step(detail(vec![track("b", 3)])).action, TaskAction::End));
    let mut t = reading(&[], true);
    assert!(matches!(
        t.step(detail(vec![])).action,
        TaskAction::RequestSubtitles { .. }
    ));
    let step = t.step(TaskEvent::SubtitlesAnswered(ApiEnvelope {
        data: None,
        message: Some(text("ignored")),
        status: None,
    }));
    assert!(step.report.is_none());
    assert!(matches!(step.action, TaskAction::End));
}

#[test]
fn the_first_failing_track_ends_the_lesson() {
    let mut t = reading(&["PPT"], true);
    started(t.step(detail(vec![track("a", 3), track("b", 3)])));
    failed(t.step(TaskEvent::TrackFailed(text("下载中断：x"))), "下载中断：x");
    assert_eq!(t.phase, TaskPhase::Ended);
    assert!(matches!(t.step(TaskEvent::TrackSucceeded).action, TaskAction::Nothing));
}

#[test]
fn failures_of_a_lesson_are_reported() {
    let x = || text("x");
    let fail = |phase: TaskPhase, event: TaskEvent, message: &str| {
        let mut t = task(&[], true);
        t.phase = phase;
        failed(t.step(event), message);
        assert_eq!(t.phase, TaskPhase::Ended);
    };
    fail(TaskPhase::AwaitingSlot, TaskEvent::SlotRefused(x()), "x");
    fail(
        TaskPhase::CreatingDirectory,
        TaskEvent::DirectoryNotCreated(x()),
        "无法创建保存目录：x",
    );
    fail(TaskPhase::BuildingClient, TaskEvent::ClientFailed(x()), "x");
    fail(TaskPhase::ReadingDetail, TaskEvent::ClientFailed(x()), "x");
    fail(TaskPhase::ReadingDetail, TaskEvent::DetailNotRequested(x()), "读取视频分轨失败：x");
    fail(TaskPhase::ReadingDetail, TaskEvent::DetailNotUnderstood(x()), "视频分轨响应异常：x");
    fail(
        TaskPhase::ReadingDetail,
        TaskEvent::DetailAnswered(ApiEnvelope { data: None, message: None, status: Some(1) }),
        "读取视频分轨失败：服务未返回数据（状态 1）",
    );
    fail(
        TaskPhase::ReadingDetail,
        TaskEvent::DetailAnswered(ApiEnvelope { data: None, message: None, status: Some(115117) }),
        "读取视频分轨失败：服务未返回数据（状态 115117），请重新扫码登录",
    );
    fail(
        TaskPhase::ReadingSubtitles,
        TaskEvent::SubtitlesAnswered(ApiEnvelope { data: None, message: None, status: Some(115117) }),
        "读取字幕失败：服务未返回数据（状态 115117），请重新扫码登录",
    );
    fail(
        TaskPhase::ReadingSubtitles,
        TaskEvent::SubtitlesNotRequested(x()),
        "读取字幕失败：x",
    );
    fail(
        TaskPhase::ReadingSubtitles,
        TaskEvent::SubtitlesNotUnderstood(x()),
        "字幕响应异常：x",
    );
    fail(
        TaskPhase::WritingSubtitles,
        TaskEvent::SubtitlesNotWritten(x()),
        "字幕写入失败：x",
    );
    fail(
        TaskPhase::WritingCaptions,
        TaskEvent::SubtitlesNotWritten(x()),
        "字幕写入失败：x",
    );
}

#[test]
fn two_lessons_are_downloaded_at_once() {
    assert_eq!(download_task::DOWNLOAD_SLOTS, 2);
}

fn official_url(mut d: TrackDownload) -> String {
    d.step(TrackEvent::Begin);
    d.step(TrackEvent::FileMissing);
    match d.step(TrackEvent::PartMeasured(None)).action {
        TrackAction::RequestOfficial { url, .. } => url,
        other => panic!("{:?}", other),
    }
}

#[test]
fn a_single_track_is_asked_for_by_its_lesson() {
    let mut t = reading(&["PPT"], false);
    let only = started(t.step(detail(vec![track("video-1", 3)])));
    assert!(official_url(only).ends_with("downloadVideo?id=TDE="));
    let mut t = reading(&["PPT"], false);
    let one_of_two = started(t.step(detail(vec![track("x", 0), track("video-1", 3)])));
    assert!(official_url(one_of_two).ends_with("downloadVideo?id=dmlkZW8tMQ=="));
}

#[test]
fn tracks_are_saved_separately() {
    let mut wanted = request(&["教师", "PPT", "视频"], false);
    wanted.lesson_title = std::iter::repeat('a').take(120).collect();
    let mut t = DownloadTask::new(session(), wanted, text("T"));
    t.step(TaskEvent::Begin);
    t.step(TaskEvent::SlotGranted);
    t.step(TaskEvent::DirectoryCreated);
    t.step(TaskEvent::ClientBuilt);
    let listed: Vec<VideoTrack> =
        [0, 3, 7, 8, 3].iter().map(|code| track("x", *code)).collect();
    let mut names = vec![started(t.step(detail(listed))).file_name];
    for _ in 0..4 {
        names.push(started(t.step(TaskEvent::TrackSucceeded)).file_name);
    }
    assert!(names[0].ends_with("_2026-07-04_教师.mp4"));
    assert!(names[1].ends_with("_2026-07-04_PPT.mp4"));
    assert!(names[2].ends_with("_2026-07-04_视频.mp4"));
    assert!(names[3].ends_with("_2026-07-04_视频_2.mp4"));
    assert!(names[4].ends_with("_2026-07-04_PPT_2.mp4"));
    names.sort();
    names.dedup();
    assert_eq!(names.len(), 5);
}

#[test]
fn tokens_are_not_told() {
    let mut a = download();
    let mut b = download();
    b.token = text("other");
    let events = || {
        vec![
            TrackEvent::Begin,
            TrackEvent::FileMissing,
            TrackEvent::PartMeasured(Some(3)),
            TrackEvent::OfficialAnswered { status: 206, length: Some(2) },
            TrackEvent::PartOpened,
            TrackEvent::ChunkRead(2),
            TrackEvent::ChunkWritten,
            TrackEvent::ChunksEnded,
            TrackEvent::NotFlushed(text("x")),
        ]
    };
    for (first, second) in events().into_iter().zip(events()) {
        let x = format!("{:?}", a.step(first));
        let y = format!("{:?}", b.step(second));
        assert_eq!(x.replace("\"tok\"", "_"), y.replace("\"other\"", "_"));
    }
}

#[test]
fn the_one_track_of_a_lesson_is_named_as_a_whole() {
    let mut wanted = request(&["PPT"], false);
    wanted.lesson_title = std::iter::repeat('a').take(120).collect();
    let mut t = DownloadTask::new(session(), wanted, text("T"));
    t.step(TaskEvent::Begin);
    t.step(TaskEvent::SlotGranted);
    t.step(TaskEvent::DirectoryCreated);
    t.step(TaskEvent::ClientBuilt);
    let only = started(t.step(detail(vec![track("x", 3)])));
    let mut name: String = std::iter::repeat('a').take(120).collect();
    name.push_str(".mp4");
    assert_eq!(only.file_name, name);
    let mut t = reading(&["PPT"], false);
    assert_eq!(started(t.step(detail(vec![track("x", 3)]))).file_name, "课_2026-07-04_PPT.mp4");
}

#[test]
fn a_task_without_a_slot_only_waits() {
    let mut t = task(&["PPT"], true);
    assert!(matches!(t.step(TaskEvent::Begin).action, TaskAction::AwaitSlot));
    for event in [
        TaskEvent::Begin,
        TaskEvent::DirectoryCreated,
        TaskEvent::ClientBuilt,
        detail(vec![track("x", 3)]),
        TaskEvent::TrackSucceeded,
        TaskEvent::SubtitlesWritten,
    ] {
        let step = t.step(event);
        assert!(step.report.is_none());
        assert!(matches!(step.action, TaskAction::Nothing));
        assert_eq!(t.phase, TaskPhase::AwaitingSlot);
    }
}

#[test]
fn signed_addresses_are_not_told() {
    let mut a = download();
    let mut b = download();
    b.fallback_url = text("https://cdn/other?key=1");
    let events = || {
        vec![
            TrackEvent::Begin,
            TrackEvent::FileMissing,
            TrackEvent::PartMeasured(None),
            TrackEvent::OfficialAnswered { status: 404, length: None },
            TrackEvent::FallbackAnswered { status: 200, length: Some(2) },
            TrackEvent::PartOpened,
            TrackEvent::ChunkRead(2),
            TrackEvent::ChunkWritten,
            TrackEvent::ChunksEnded,
            TrackEvent::Flushed,
            TrackEvent::Renamed,
        ]
    };
    for (first, second) in events().into_iter().zip(events()) {
        let x = format!("{:?}", a.step(first));
        let y = format!("{:?}", b.step(second));
        assert_eq!(
            x.replace("https://cdn/video-1", "_"),
            y.replace("https://cdn/other?key=1", "_")
        );
    }
}
