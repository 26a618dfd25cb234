use canvas_pocket::naming;
use canvas_pocket::text;

fn all_chars() -> Vec<char> {
    (0u32..=0x10ffff).filter_map(char::from_u32).collect()
}

#[test]
fn white_space_is_that_of_the_standard_library() {
    for c in all_chars() {
        assert_eq!(text::is_white_space(c), c.is_whitespace(), "{:?}", c);
    }
}

#[test]
fn control_characters_are_those_of_the_standard_library() {
    for c in all_chars() {
        assert_eq!(text::is_control(c), c.is_control(), "{:?}", c);
    }
}

#[test]
fn trimming_is_that_of_the_standard_library() {
    for s in ["", " ", "a", "  a b\t", "\u{3000}课\u{a0}", "\u{200b}x\u{200b}", "\n\r\n"] {
        assert_eq!(text::trim_text(s), s.trim());
    }
}

#[test]
fn texts_are_compared_by_their_characters() {
    assert!(text::same_text("", ""));
    assert!(text::same_text("教师", "教师"));
    assert!(!text::same_text("教师", "教"));
    assert!(!text::same_text("PPT", "ppt"));
}

#[test]
fn texts_are_cut_and_split() {
    assert_eq!(text::text_before("a&b&c", '&'), "a");
    assert_eq!(text::text_before("abc", '&'), "abc");
    assert_eq!(text::text_behind("a?b?c", '?').as_deref(), Some("b?c"));
    assert_eq!(text::text_behind("abc", '?'), None);
    assert_eq!(text::text_behind_last("a=b=c", '='), "c");
    assert_eq!(text::text_behind_last("abc", '='), "abc");
    assert_eq!(text::split_text("a;b;;c", ';'), vec!["a", "b", "", "c"]);
    assert_eq!(text::split_text("", ';'), vec![""]);
}

#[test]
fn texts_are_searched() {
    assert_eq!(text::find_text("扫码uuid=1", "uuid="), Some(2));
    assert_eq!(text::find_text("aab", "ab"), Some(1));
    assert_eq!(text::find_text("abc", "x"), None);
    assert_eq!(text::find_text("ab", "abc"), None);
    assert!(text::starts_with("https://a/b", "https://a"));
    assert!(!text::starts_with("http", "https"));
}

#[test]
fn numbers_are_written_as_the_standard_library_writes_them() {
    for n in [0u64, 7, 10, 99, 100, 1234567890, u64::MAX] {
        assert_eq!(text::decimal_text(n), n.to_string());
    }
    for n in [0i64, -1, 42, -1000, i64::MIN, i64::MAX] {
        assert_eq!(text::signed_decimal_text(n), n.to_string());
    }
    for n in [0u64, 5, 10, 99, 100, 12345] {
        let mut two = String::new();
        text::push_padded(&mut two, n, 2);
        assert_eq!(two, format!("{:02}", n));
        let mut three = String::from("x");
        text::push_padded(&mut three, n, 3);
        assert_eq!(three, format!("x{:03}", n));
    }
}

#[test]
fn integers_are_read_as_the_standard_library_reads_them() {
    let texts = [
        "0", "3", "-3", "+3", "003", "", "-", "+", "--1", "+-1", " 3", "3 ", "3.0", "1e3", "٣",
        "9223372036854775807", "9223372036854775808", "-9223372036854775808",
        "-9223372036854775809", "00000000000000000000000000000001",
    ];
    for s in texts {
        assert_eq!(text::parse_i64(s), s.parse::<i64>().ok(), "{:?}", s);
    }
}

#[test]
fn written_numbers_read_back() {
    for n in [0i64, 1, -1, 115117, i64::MIN, i64::MAX] {
        assert_eq!(text::parse_i64(&text::signed_decimal_text(n)), Some(n));
    }
}

#[test]
fn illegal_characters_are_replaced() {
    assert_eq!(naming::safe_filename("a<b>c:d\"e/f\\g|h?i*j"), "a_b_c_d_e_f_g_h_i_j");
    assert_eq!(naming::safe_filename("a\u{0}b\u{7f}c\u{85}d"), "a_b_c_d");
    assert_eq!(naming::safe_filename("系统模型 第02讲"), "系统模型 第02讲");
}

#[test]
fn names_are_stripped() {
    assert_eq!(naming::safe_filename("  name.. . "), "name");
    assert_eq!(naming::safe_filename("..name"), "..name");
    assert_eq!(naming::safe_filename("\u{3000}课\u{3000}. "), "课");
    assert_eq!(naming::safe_filename("\tname\t"), "_name_");
}

#[test]
fn names_without_content_get_a_name() {
    assert_eq!(naming::safe_filename(""), "课程录像");
    assert_eq!(naming::safe_filename(" . . "), "课程录像");
    assert_eq!(naming::safe_filename("..."), "课程录像");
}

#[test]
fn long_names_are_cut_by_characters() {
    let long: String = std::iter::repeat('课').take(121).collect();
    let cut = naming::safe_filename(&long);
    assert_eq!(cut.chars().count(), 120);
    assert!(long.starts_with(&cut));
    let fits: String = std::iter::repeat('课').take(120).collect();
    assert_eq!(naming::safe_filename(&fits), fits);
}

#[test]
fn safe_names_stay_as_they_are() {
    for s in ["a/b", "  name.. ", "", "系统模型_2026-07-04_PPT"] {
        let once = naming::safe_filename(s);
        assert_eq!(naming::safe_filename(&once), once);
    }
}

#[test]
fn a_cut_name_can_end_in_a_dot() {
    let mut s: String = std::iter::repeat('a').take(119).collect();
    s.push_str(".b");
    let once = naming::safe_filename(&s);
    assert!(once.ends_with('.'));
    assert_ne!(naming::safe_filename(&once), once);
}

#[test]
fn signals_have_names() {
    assert_eq!(naming::track_name(0), "教师");
    assert_eq!(naming::track_name(1), "学生1");
    assert_eq!(naming::track_name(2), "学生2");
    assert_eq!(naming::track_name(3), "PPT");
    assert_eq!(naming::track_name(4), "合成");
    assert_eq!(naming::track_name(5), "视频");
    assert_eq!(naming::track_name(-1), "视频");
    assert_eq!(naming::track_name(i64::MIN), "视频");
}

#[test]
fn dates_are_the_first_ten_bytes() {
    assert_eq!(naming::date_prefix("2026-07-04 10:00:00"), "2026-07-04");
    assert_eq!(naming::date_prefix("2026-07-04"), "2026-07-04");
    assert_eq!(naming::date_prefix("2026-07-0"), "");
    assert_eq!(naming::date_prefix(""), "");
    for s in ["2026年07月04日", "2026-07-年4", "年年年年年", "123456789é"] {
        assert_eq!(naming::date_prefix(s), s.get(..10).unwrap_or(""));
    }
}

#[test]
fn files_are_named_by_lesson_date_and_signal() {
    assert_eq!(
        naming::video_file_name("系统模型", "2026-07-04 10:00", 3),
        "系统模型_2026-07-04_PPT.mp4"
    );
    assert_eq!(naming::video_file_name("a/b", "", 9), "a_b__视频.mp4");
    assert_eq!(naming::partial_file_name("x.mp4"), "x.mp4.part");
    assert_eq!(
        naming::subtitle_file_name("系统模型", "2026-07-04 10:00"),
        "系统模型_2026-07-04_AI字幕.srt"
    );
}

#[test]
fn tracks_of_a_lesson_have_files_of_their_own() {
    let mut names: Vec<String> =
        (0..5).map(|code| naming::video_file_name("课", "2026-07-04", code)).collect();
    names.sort();
    names.dedup();
    assert_eq!(names.len(), 5);
}

#[test]
fn long_titles_are_cut_before_the_signal() {
    let name = |n: usize, code: i64| {
        let title: String = std::iter::repeat('a').take(n).collect();
        naming::video_file_name(&title, "2026-07-04 08:00", code)
    };
    let cut = |n: usize, tail: &str| {
        let mut title: String = std::iter::repeat('a').take(n).collect();
        title.push_str(tail);
        title
    };
    for n in [105, 106, 120, 300] {
        assert_eq!(name(n, 3), cut(105, "_2026-07-04_PPT.mp4"));
        assert_ne!(name(n, 0), name(n, 3));
        assert_ne!(name(n, 1), name(n, 2));
    }
    assert_eq!(name(104, 3), cut(104, "_2026-07-04_PPT.mp4"));
    assert_eq!(name(120, 0), cut(106, "_2026-07-04_教师.mp4"));
}

#[test]
fn short_names_are_those_of_the_whole_label() {
    for title in ["课", "  a/b. ", "", " . ", "\u{3000}课\u{3000}"] {
        for (time, date) in [("2026-07-04 08:00", "2026-07-04"), ("10:00:00.000", "10:00:00.0"), ("", "")] {
            let label = format!("{}_{}_{}", title, date, "PPT");
            assert_eq!(
                naming::video_file_name(title, time, 3),
                format!("{}.mp4", naming::safe_filename(&label))
            );
        }
    }
}

#[test]
fn tracks_with_the_same_signal_are_numbered() {
    let name = |code: i64, earlier: u64| naming::numbered_video_file_name("课", "2026-07-04", code, earlier);
    assert_eq!(name(7, 0), "课_2026-07-04_视频.mp4");
    assert_eq!(name(8, 1), "课_2026-07-04_视频_2.mp4");
    assert_eq!(name(0, 10), "课_2026-07-04_教师_11.mp4");
    assert_eq!(name(7, 0), naming::video_file_name("课", "2026-07-04", 7));
}

#[test]
fn subtitles_have_two_files_with_one_name() {
    assert_eq!(
        naming::subtitle_file_name("系统模型", "2026-07-04 10:00"),
        "系统模型_2026-07-04_AI字幕.srt"
    );
    assert_eq!(
        naming::caption_file_name("系统模型", "2026-07-04 10:00"),
        "系统模型_2026-07-04_AI字幕.vtt"
    );
}
