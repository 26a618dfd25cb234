//! What the names of files are made of.

use vstd::prelude::*;

use crate::naming;
use crate::text;
use crate::text_laws;

verus! {

// ---------------------------------------------------------------------------------------------
// Names that a file system takes
// ---------------------------------------------------------------------------------------------

/// Each character stays, but for those that cannot stand in a name, each of which becomes an
/// underscore.
pub proof fn law_characters_stay_or_are_replaced(s: Seq<char>, i: int)
    requires
        0 <= i < s.len(),
    ensures
        naming::replaced(s).len() == s.len(),
        ({
            let c = s[i];
            let stays = c != '<' && c != '>' && c != ':' && c != '"' && c != '/' && c != '\\' && c
                != '|' && c != '?' && c != '*' && ' ' <= c && !('\u{7f}' <= c <= '\u{9f}');
            naming::replaced(s)[i] == if stays {
                c
            } else {
                '_'
            }
        }),
{
    text_laws::law_classes_go_by_code_points(s[i]);
}

/// Behind the white space at the ends, the dots and spaces at the end are dropped, and then the
/// white space that this leaves at the end.
pub proof fn law_dots_and_spaces_are_dropped(s: Seq<char>, body: Seq<char>, end: Seq<char>)
    requires
        text::trim(s) == body + end,
        body.len() > 0 ==> body.last() != '.' && body.last() != ' ',
        forall|i: int| 0 <= i < end.len() ==> (#[trigger] end[i] == '.' || end[i] == ' '),
    ensures
        naming::stripped(s) == text::trim(body),
{
    lemma_end_is_dropped(body, end);
}

proof fn lemma_end_is_dropped(body: Seq<char>, end: Seq<char>)
    requires
        body.len() > 0 ==> body.last() != '.' && body.last() != ' ',
        forall|i: int| 0 <= i < end.len() ==> (#[trigger] end[i] == '.' || end[i] == ' '),
    ensures
        text::trim_end_by(body + end, |c: char| text::dot_or_space(c)) == body,
    decreases end.len(),
{
    let s = body + end;
    if end.len() == 0 {
        assert(s =~= body);
    } else {
        let fewer = end.drop_last();
        assert forall|i: int| 0 <= i < fewer.len() implies (#[trigger] fewer[i] == '.' || fewer[i]
            == ' ') by {
            assert(fewer[i] == end[i]);
        }
        lemma_end_is_dropped(body, fewer);
        assert(s.drop_last() =~= body + fewer);
        assert(s.last() == end[end.len() - 1]);
    }
}

/// What is left is the name, cut behind its hundred and twentieth character; where nothing is left,
/// the name is a fixed one.
pub proof fn law_names_are_what_is_left(s: Seq<char>)
    ensures
        ({
            let left = naming::stripped(naming::replaced(s));
            &&& left.len() == 0 ==> naming::safe_name(s) == "课程录像"@
            &&& 0 < left.len() <= 120 ==> naming::safe_name(s) == left
            &&& left.len() > 120 ==> naming::safe_name(s) == left.subrange(0, 120)
        }),
{
    let left = naming::stripped(naming::replaced(s));
    if left.len() > 120 {
        assert(left.take(120) =~= left.subrange(0, 120));
    }
}

/// A text that can be a name as it is, is one: it stays as it is.
pub proof fn law_good_names_stay(s: Seq<char>)
    requires
        0 < s.len() <= 120,
        forall|i: int| 0 <= i < s.len() ==> !naming::illegal(#[trigger] s[i]),
        !text::white_space(s[0]),
        !text::white_space(s.last()),
        s.last() != '.',
    ensures
        naming::safe_name(s) == s,
{
    let none = Seq::<char>::empty();
    assert forall|i: int| 0 <= i < s.len() implies naming::replaced(s)[i] == s[i] by {
        assert(!naming::illegal(s[i]));
    }
    assert(naming::replaced(s) =~= s);
    assert(none + s + none =~= s);
    assert(s + none =~= s);
    text_laws::law_trimming_takes_white_space_off_the_ends(none, s, none);
    law_dots_and_spaces_are_dropped(s, s, none);
}

// ---------------------------------------------------------------------------------------------
// The names of recordings
// ---------------------------------------------------------------------------------------------

/// Each signal has its name, and every number that is none of theirs stands for a video.
pub proof fn law_signals_have_their_names(code: i64)
    ensures
        naming::signal_name(0) == "教师"@,
        naming::signal_name(1) == "学生1"@,
        naming::signal_name(2) == "学生2"@,
        naming::signal_name(3) == "PPT"@,
        naming::signal_name(4) == "合成"@,
        code < 0 || code > 4 ==> naming::signal_name(code) == "视频"@,
{
}

proof fn lemma_encoding_joins(a: Seq<char>, b: Seq<char>)
    ensures
        vstd::utf8::encode_utf8(a + b) == vstd::utf8::encode_utf8(a) + vstd::utf8::encode_utf8(b),
    decreases a.len(),
{
    if a.len() == 0 {
        assert(a + b =~= b);
        assert(vstd::utf8::encode_utf8(a) + vstd::utf8::encode_utf8(b) =~= vstd::utf8::encode_utf8(
            b,
        ));
    } else {
        lemma_encoding_joins(a.drop_first(), b);
        assert((a + b).drop_first() =~= a.drop_first() + b);
        assert(vstd::utf8::encode_utf8(a + b) =~= vstd::utf8::encode_utf8(a)
            + vstd::utf8::encode_utf8(b));
    }
}

/// The date of a time is what its first ten bytes say.
pub proof fn law_dates_are_ten_bytes(date: Seq<char>, rest: Seq<char>)
    requires
        vstd::utf8::encode_utf8(date).len() == 10,
    ensures
        naming::date_of(date + rest) == date,
{
    let front = vstd::utf8::encode_utf8(date);
    let back = vstd::utf8::encode_utf8(rest);
    let bytes = vstd::utf8::encode_utf8(date + rest);
    lemma_encoding_joins(date, rest);
    vstd::utf8::encode_utf8_valid_utf8(date + rest);
    vstd::utf8::encode_utf8_valid_utf8(rest);
    vstd::utf8::encode_utf8_decode_utf8(date);
    assert(bytes.subrange(0, 10) =~= front);
    if back.len() == 0 {
        vstd::utf8::is_char_boundary_start_end_of_seq(bytes);
    } else {
        vstd::utf8::is_char_boundary_start_end_of_seq(back);
        vstd::utf8::is_char_boundary_iff_not_is_continuation_byte(back, 0);
        assert(bytes[10] == back[0]);
        vstd::utf8::is_char_boundary_iff_not_is_continuation_byte(bytes, 10);
    }
}

/// A time of which no start is ten bytes long has no date.
pub proof fn law_other_times_have_no_date(time: Seq<char>)
    requires
        forall|k: int|
            0 <= k <= time.len() ==> vstd::utf8::encode_utf8(#[trigger] time.take(k)).len() != 10,
    ensures
        naming::date_of(time).len() == 0,
{
    let bytes = vstd::utf8::encode_utf8(time);
    vstd::utf8::encode_utf8_valid_utf8(time);
    if vstd::utf8::is_char_boundary(bytes, 10) {
        vstd::utf8::valid_utf8_split(bytes, 10);
        let a = bytes.subrange(0, 10);
        let b = bytes.subrange(10, bytes.len() as int);
        let date = vstd::utf8::decode_utf8(a);
        let rest = vstd::utf8::decode_utf8(b);
        vstd::utf8::decode_utf8_encode_utf8(a);
        vstd::utf8::decode_utf8_encode_utf8(b);
        lemma_encoding_joins(date, rest);
        assert(a + b =~= bytes);
        vstd::utf8::encode_utf8_decode_utf8(time);
        vstd::utf8::encode_utf8_decode_utf8(date + rest);
        assert(time == date + rest);
        assert(time.take(date.len() as int) =~= date);
    }
}

/// The file of the one track of a lesson, and the files of its subtitles, are named after the
/// title, the date and what they hold.
pub proof fn law_lessons_name_their_files(title: Seq<char>, time: Seq<char>, code: i64)
    ensures
        ({
            let start = title + "_"@ + naming::date_of(time) + "_"@;
            &&& naming::single_video_name(title, time, code) == naming::safe_name(
                start + naming::signal_name(code),
            ) + ".mp4"@
            &&& naming::subtitle_name(title, time) == naming::safe_name(start + "AI字幕"@) + ".srt"@
            &&& naming::caption_name(title, time) == naming::safe_name(start + "AI字幕"@) + ".vtt"@
        }),
{
}

/// The file of a track is named after the title, the date and the signal, with a number from two on
/// where tracks before it carry the same signal. Only the title is cut, and only as far as the
/// limit of a hundred and twenty characters asks for.
pub proof fn law_tracks_name_their_files(
    title: Seq<char>,
    blank: Seq<char>,
    head: Seq<char>,
    time: Seq<char>,
    code: i64,
    earlier: nat,
)
    requires
        naming::replaced(title) == blank + head,
        text_laws::is_blank(blank),
        head.len() > 0 ==> !text::white_space(head[0]),
    ensures
        ({
            let tail = "_"@ + naming::replaced(naming::date_of(time)) + "_"@ + (if earlier == 0 {
                naming::signal_name(code)
            } else {
                naming::signal_name(code) + "_"@ + text::decimal(earlier + 1)
            });
            let name = naming::numbered_video_name(title, time, code, earlier);
            &&& head.len() + tail.len() <= 120 ==> name == head + tail + ".mp4"@
            &&& head.len() + tail.len() > 120 && tail.len() <= 120 ==> name == head.subrange(
                0,
                120 - tail.len(),
            ) + tail + ".mp4"@
            &&& tail.len() > 120 ==> name == tail + ".mp4"@
        }),
        naming::video_name(title, time, code) == naming::numbered_video_name(title, time, code, 0),
{
    lemma_blank_start(blank, head);
    let tail = naming::track_tail(time, code, earlier);
    let room = 120 - tail.len();
    if head.len() > room && room > 0 {
        assert(head.take(room) =~= head.subrange(0, room));
    }
    if head.len() > room && room <= 0 {
        assert(naming::track_stem(title, time, code, earlier) =~= tail);
        if room == 0 {
            assert(head.subrange(0, 0) + tail =~= tail);
        }
    }
    if head.len() == 0 {
        assert(head + tail =~= tail);
    }
}

proof fn lemma_blank_start(blank: Seq<char>, head: Seq<char>)
    requires
        text_laws::is_blank(blank),
        head.len() > 0 ==> !text::white_space(head[0]),
    ensures
        text::trim_start(blank + head) == head,
    decreases blank.len(),
{
    let s = blank + head;
    if blank.len() == 0 {
        assert(s =~= head);
    } else {
        let fewer = blank.skip(1);
        assert forall|i: int| 0 <= i < fewer.len() implies text::white_space(#[trigger] fewer[i]) by {
            assert(fewer[i] == blank[i + 1]);
        }
        lemma_blank_start(fewer, head);
        assert(s[0] == blank[0]);
        assert(s.skip(1) =~= fewer + head);
    }
}

/// A file that is being downloaded has its own name and an ending behind it.
pub proof fn law_partial_files_are_named(name: Seq<char>)
    ensures
        naming::partial_name(name) == name + ".part"@,
{
}

} // verus!
