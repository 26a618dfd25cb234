use canvas_pocket::lessons::{self, Course, Lesson, StringFallback};
use canvas_pocket::progress::DownloadRequest;
use canvas_pocket::subtitles::{self, SubtitleCue, SubtitleData};

fn value(text: &str) -> serde_json::Value {
    serde_json::from_str(text).unwrap()
}

fn course(id: u64, name: &str) -> Course {
    Course { id, name: name.to_string(), course_code: String::new() }
}

fn cue(bg: i64, ed: i64, res: &str) -> SubtitleCue {
    SubtitleCue { bg, ed, res: res.to_string() }
}

fn request() -> DownloadRequest {
    DownloadRequest {
        lesson_id: "L1".to_string(),
        lesson_title: "系统模型".to_string(),
        begin_time: "2026-07-04 10:00:00".to_string(),
        signals: vec!["PPT".to_string()],
        include_subtitles: true,
        output_dir: None,
    }
}

#[test]
fn courses_without_a_name_are_left_out() {
    let all = vec![course(1, "a"), course(2, " \u{3000}"), course(3, ""), course(4, " b ")];
    let ids: Vec<u64> = lessons::visible_courses(all).iter().map(|c| c.id).collect();
    assert_eq!(ids, vec![1, 4]);
}

#[test]
fn empty_strings_get_a_fallback() {
    assert_eq!(String::new().or_else_if_empty(|| "x".to_string()), "x");
    assert_eq!("y".to_string().or_else_if_empty(|| "x".to_string()), "y");
    assert_eq!(" ".to_string().or_else_if_empty(|| "x".to_string()), " ");
}

#[test]
fn records_become_lessons() {
    let records = vec![
        value(
            r#"{"videoId": "v1", "courseName": "  绪论 ", "courseBeginTime": "b", "courseEndTime": "e",
                "classroomName": "r", "videAuditStatus": 3}"#,
        ),
        value(r#"{"courseName": "no video"}"#),
        value(r#"{"videoId": "", "title": "empty"}"#),
        value(
            r#"{"videoId": "v2", "videoName": " ", "title": "t", "beginTime": "b2", "endTime": "e2",
                "roomName": "r2", "videAuditStatus": "1"}"#,
        ),
        value(r#"{"videoId": 5}"#),
        value("null"),
    ];
    let found = lessons::lessons_from_records(records);
    assert_eq!(found.len(), 2);
    assert_eq!(found[0].video_id, "v1");
    assert_eq!(found[0].title, "绪论");
    assert_eq!(found[0].begin_time, "b");
    assert_eq!(found[0].end_time, "e");
    assert_eq!(found[0].classroom, "r");
    assert_eq!(found[0].audit_status, 3);
    assert_eq!(found[1].video_id, "v2");
    assert_eq!(found[1].title, "第04讲");
    assert_eq!(found[1].begin_time, "b2");
    assert_eq!(found[1].end_time, "e2");
    assert_eq!(found[1].classroom, "r2");
    assert_eq!(found[1].audit_status, 1);
}

#[test]
fn lessons_keep_their_numbers_when_more_follow() {
    let record = || value(r#"{"videoId": "v"}"#);
    let few: Vec<String> = lessons::lessons_from_records(vec![record(), record()])
        .into_iter()
        .map(|l| l.title)
        .collect();
    let many: Vec<String> = lessons::lessons_from_records((0..100).map(|_| record()).collect())
        .into_iter()
        .map(|l| l.title)
        .collect();
    assert_eq!(few, vec!["第01讲", "第02讲"]);
    assert_eq!(&many[..2], &few[..]);
    assert_eq!(many[99], "第100讲");
}

#[test]
fn only_open_lessons_are_shown() {
    let lesson = |id: &str, audit_status: i64| Lesson {
        video_id: id.to_string(),
        title: String::new(),
        begin_time: String::new(),
        end_time: String::new(),
        classroom: String::new(),
        audit_status,
    };
    let all = vec![lesson("a", 3), lesson("b", 0), lesson("c", 2), lesson("d", 3), lesson("e", -3)];
    let ids: Vec<String> = lessons::open_lessons(all).into_iter().map(|l| l.video_id).collect();
    assert_eq!(ids, vec!["a", "d"]);
}

#[test]
fn times_are_written() {
    assert_eq!(subtitles::srt_time(0), "00:00:00,000");
    assert_eq!(subtitles::srt_time(-1), "00:00:00,000");
    assert_eq!(subtitles::srt_time(i64::MIN), "00:00:00,000");
    assert_eq!(subtitles::srt_time(999), "00:00:00,999");
    assert_eq!(subtitles::srt_time(3_286_042), "00:54:46,042");
    assert_eq!(subtitles::srt_time(3_661_001), "01:01:01,001");
    assert_eq!(subtitles::srt_time(360_000_000), "100:00:00,000");
    assert_eq!(subtitles::srt_time(i64::MAX), "2562047788015:12:55,807");
}

#[test]
fn written_times_can_be_read() {
    for ms in [0i64, 1, 59_999, 60_000, 3_599_999, 3_600_000, 86_400_123] {
        let t = subtitles::srt_time(ms);
        let n = t.len();
        let field = |s: &str| s.parse::<i64>().unwrap();
        let back = field(&t[..n - 10]) * 3_600_000
            + field(&t[n - 9..n - 7]) * 60_000
            + field(&t[n - 6..n - 4]) * 1_000
            + field(&t[n - 3..]);
        assert_eq!(back, ms);
    }
}

#[test]
fn cues_are_numbered_by_their_places() {
    let cues = vec![cue(0, 1500, " 你好 "), cue(1500, 2000, "  "), cue(2000, 3000, "a\nb")];
    assert_eq!(
        subtitles::srt_document(&cues),
        "1\n00:00:00,000 --> 00:00:01,500\n你好\n\n3\n00:00:02,000 --> 00:00:03,000\na\nb\n\n"
    );
    assert_eq!(subtitles::srt_document(&vec![]), "");
    assert_eq!(subtitles::srt_document(&vec![cue(0, 1, "")]), "");
}

#[test]
fn captions_are_written() {
    assert_eq!(subtitles::vtt_time(-5), "00:00:00.000");
    assert_eq!(subtitles::vtt_time(3_661_001), "01:01:01.001");
    let header = "WEBVTT\n\nNOTE AI 生成字幕，仅供参考\n\n";
    assert_eq!(subtitles::vtt_document(&vec![]), header);
    let cues = vec![cue(0, 1500, " 你好 "), cue(1500, 2000, "  "), cue(2000, 3000, "a\n\nb --> <c> & d")];
    assert_eq!(
        subtitles::vtt_document(&cues),
        format!(
            "{}1\n00:00:00.000 --> 00:00:01.500\n你好\n\n3\n00:00:02.000 --> 00:00:03.000\na  b --&gt; &lt;c&gt; &amp; d\n\n",
            header
        )
    );
    assert!(subtitles::vtt_document(&cues).starts_with(&subtitles::vtt_document(&vec![cue(0, 1500, "你好")])));
}

#[test]
fn earlier_cues_stay_when_more_follow() {
    let first = subtitles::srt_document(&vec![cue(0, 1, "a")]);
    let both = subtitles::srt_document(&vec![cue(0, 1, "a"), cue(1, 2, "b")]);
    assert!(both.starts_with(&first));
}

#[test]
fn lessons_without_subtitles_have_no_plan() {
    assert!(subtitles::plan_subtitles(&request(), "t", None).is_none());
    let empty = SubtitleData { after_assembly_list: vec![] };
    assert!(subtitles::plan_subtitles(&request(), "t", Some(empty)).is_none());
}

#[test]
fn subtitles_are_planned() {
    let data = SubtitleData { after_assembly_list: vec![cue(0, 1, "a")] };
    let plan = subtitles::plan_subtitles(&request(), "t", Some(data)).unwrap();
    assert_eq!(plan.file_name, "系统模型_2026-07-04_AI字幕.srt");
    assert_eq!(plan.content, "1\n00:00:00,000 --> 00:00:00,001\na\n\n");
    assert_eq!(plan.caption_name, "系统模型_2026-07-04_AI字幕.vtt");
    assert_eq!(
        plan.captions,
        "WEBVTT\n\nNOTE AI 生成字幕，仅供参考\n\n1\n00:00:00.000 --> 00:00:00.001\na\n\n"
    );
    for (report, stage, message) in [
        (&plan.starting, "writing-subtitles", "正在写入字幕"),
        (&plan.finished, "completed", "字幕已保存"),
    ] {
        assert_eq!(report.task_id, "t");
        assert_eq!(report.lesson_id, "L1");
        assert_eq!(report.file_name, plan.file_name);
        assert_eq!(report.stage, stage);
        assert_eq!(report.downloaded, 0);
        assert_eq!(report.total, None);
        assert_eq!(report.message, message);
    }
}
