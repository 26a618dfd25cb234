//! What holds of the files of subtitles, said of the cues that they are written from.

use vstd::prelude::*;

use crate::naming;
use crate::progress;
use crate::progress::DownloadRequest;
use crate::subtitles;
use crate::subtitles::CueView;
use crate::text;
use crate::text_laws;

verus! {

/// Whether `s` is a time: at least two digits for the hours and no zero too many, two for the
/// minutes, two for the seconds and three for the milliseconds, with colons and `mark` between them,
/// and less than sixty minutes and seconds.
pub open spec fn is_clock(s: Seq<char>, mark: char) -> bool {
    let n = s.len();
    &&& n >= 12
    &&& s[n - 10] == ':'
    &&& s[n - 7] == ':'
    &&& s[n - 4] == mark
    &&& n > 12 ==> s[0] != '0'
    &&& s[n - 9] <= '5' && s[n - 6] <= '5'
    &&& forall|i: int|
        0 <= i < n && i != n - 10 && i != n - 7 && i != n - 4 ==> '0' <= #[trigger] s[i] <= '9'
}

proof fn lemma_clock(milliseconds: int, mark: char)
    ensures
        is_clock(subtitles::clock_text(milliseconds, seq![mark]), mark),
{
    let value = subtitles::at_least_zero(milliseconds);
    let h = text::padded(value / 3_600_000, 2);
    let m = text::padded((value / 60_000) % 60, 2);
    let s = text::padded((value / 1_000) % 60, 2);
    let u = text::padded(value % 1_000, 3);
    text_laws::law_filling_up_keeps_the_number(value / 3_600_000, 2);
    text_laws::law_filling_up_keeps_the_number((value / 60_000) % 60, 2);
    text_laws::law_filling_up_keeps_the_number((value / 1_000) % 60, 2);
    text_laws::law_filling_up_keeps_the_number(value % 1_000, 3);
    text_laws::law_numbers_are_written_in_digits(value / 3_600_000);
    text::lemma_decimal_is_short((value / 60_000) % 60);
    text::lemma_decimal_is_short((value / 1_000) % 60);
    text::lemma_decimal_is_short(value % 1_000);
    lemma_first_of_two(m);
    lemma_first_of_two(s);
    reveal_strlit(":");
    assert(":"@ =~= seq![':']);
    lemma_clock_parts(h, m, s, mark, u);
}

proof fn lemma_first_of_two(s: Seq<char>)
    requires
        s.len() == 2,
        '0' <= s[1] <= '9',
        text::number_of(s) < 60,
    ensures
        s[0] <= '5',
{
    let none = Seq::<char>::empty();
    assert(s =~= none.push(s[0]).push(s[1]));
    text_laws::law_digits_count_by_tens(none, s[0]);
    text_laws::law_digits_count_by_tens(none.push(s[0]), s[1]);
}

proof fn lemma_clock_parts(
    h: Seq<char>,
    m: Seq<char>,
    s: Seq<char>,
    mark: char,
    u: Seq<char>,
)
    requires
        h.len() >= 2,
        h.len() > 2 ==> h[0] != '0',
        m.len() == 2,
        s.len() == 2,
        u.len() == 3,
        m[0] <= '5',
        s[0] <= '5',
        forall|i: int| 0 <= i < h.len() ==> '0' <= #[trigger] h[i] <= '9',
        forall|i: int| 0 <= i < m.len() ==> '0' <= #[trigger] m[i] <= '9',
        forall|i: int| 0 <= i < s.len() ==> '0' <= #[trigger] s[i] <= '9',
        forall|i: int| 0 <= i < u.len() ==> '0' <= #[trigger] u[i] <= '9',
    ensures
        is_clock(h + seq![':'] + m + seq![':'] + s + seq![mark] + u, mark),
{
    let t = h + seq![':'] + m + seq![':'] + s + seq![mark] + u;
    let n = t.len();
    let k = h.len() as int;
    assert forall|i: int| 0 <= i < n && i != n - 10 && i != n - 7 && i != n - 4 implies '0'
        <= #[trigger] t[i] <= '9' by {
        if i < k {
            assert(t[i] == h[i]);
        } else if i < k + 3 {
            assert(t[i] == m[i - k - 1]);
        } else if i < k + 6 {
            assert(t[i] == s[i - k - 4]);
        } else {
            assert(t[i] == u[i - k - 7]);
        }
    }
    assert(t[0] == h[0]);
    assert(t[n - 9] == m[0]);
    assert(t[n - 6] == s[0]);
}

/// Whether a part of a SubRip file is the entry with the given number, times and text.
pub open spec fn is_entry(
    part: Seq<char>,
    number: nat,
    from: Seq<char>,
    to: Seq<char>,
    shown: Seq<char>,
) -> bool {
    part == text::decimal(number) + seq!['\n'] + from + seq![' ', '-', '-', '>', ' '] + to + seq![
        '\n',
    ] + shown + seq!['\n', '\n']
}

/// Times that are not negative count as they are, others as zero.
pub open spec fn shown_time(milliseconds: i64) -> int {
    if milliseconds < 0 {
        0
    } else {
        milliseconds as int
    }
}

proof fn lemma_marks()
    ensures
        "\n"@ == seq!['\n'],
        "\n\n"@ == seq!['\n', '\n'],
        " --> "@ == seq![' ', '-', '-', '>', ' '],
        ","@ == seq![','],
        "."@ == seq!['.'],
{
    reveal_strlit("\n");
    reveal_strlit("\n\n");
    reveal_strlit(" --> ");
    reveal_strlit(",");
    reveal_strlit(".");
    assert("\n"@ =~= seq!['\n']);
    assert("\n\n"@ =~= seq!['\n', '\n']);
    assert(" --> "@ =~= seq![' ', '-', '-', '>', ' ']);
    assert(","@ =~= seq![',']);
    assert("."@ =~= seq!['.']);
}

/// A SubRip file reads back: behind the cues that came first, a cue whose text is `shown` with
/// white space around it adds one entry, with its place in the list, counted from one, as its
/// number, its two times to the millisecond, and its text. A cue of white space adds nothing.
pub proof fn law_subrip_entries_read_back(
    cues: Seq<CueView>,
    cue: CueView,
    front: Seq<char>,
    shown: Seq<char>,
    back: Seq<char>,
)
    requires
        cue.res == front + shown + back,
        text_laws::is_blank(front),
        text_laws::is_blank(back),
        shown.len() > 0 ==> !text::white_space(shown[0]) && !text::white_space(shown.last()),
    ensures
        subtitles::srt_text(Seq::empty()).len() == 0,
        shown.len() == 0 ==> subtitles::srt_text(cues.push(cue)) == subtitles::srt_text(cues),
        shown.len() > 0 ==> exists|part: Seq<char>, from: Seq<char>, to: Seq<char>|
            subtitles::srt_text(cues.push(cue)) == subtitles::srt_text(cues) + part
                && #[trigger] is_entry(part, cues.len() + 1, from, to, shown) && is_clock(from, ',')
                && is_clock(to, ',') && subtitles::clock_millis(from) == shown_time(cue.bg)
                && subtitles::clock_millis(to) == shown_time(cue.ed),
{
    text_laws::law_trimming_takes_white_space_off_the_ends(front, shown, back);
    assert(cues.push(cue).drop_last() =~= cues);
    lemma_marks();
    let part = subtitles::cue_block(cue, cues.len() + 1);
    if shown.len() > 0 {
        let from = subtitles::srt_time_text(cue.bg as int);
        let to = subtitles::srt_time_text(cue.ed as int);
        lemma_clock(cue.bg as int, ',');
        lemma_clock(cue.ed as int, ',');
        subtitles::law_times_read_back(cue.bg as int);
        subtitles::law_times_read_back(cue.ed as int);
        assert(is_entry(part, cues.len() + 1, from, to, shown));
    } else {
        assert(subtitles::srt_text(cues.push(cue)) =~= subtitles::srt_text(cues));
    }
}

/// A WebVTT file reads back in the same way; it starts with its signature and the note that the
/// subtitles were made by machine, and the text of a cue is escaped.
pub proof fn law_webvtt_entries_read_back(
    cues: Seq<CueView>,
    cue: CueView,
    front: Seq<char>,
    shown: Seq<char>,
    back: Seq<char>,
)
    requires
        cue.res == front + shown + back,
        text_laws::is_blank(front),
        text_laws::is_blank(back),
        shown.len() > 0 ==> !text::white_space(shown[0]) && !text::white_space(shown.last()),
    ensures
        subtitles::vtt_text(Seq::empty()) == "WEBVTT\n\nNOTE AI 生成字幕，仅供参考\n\n"@,
        shown.len() == 0 ==> subtitles::vtt_text(cues.push(cue)) == subtitles::vtt_text(cues),
        shown.len() > 0 ==> exists|part: Seq<char>, from: Seq<char>, to: Seq<char>|
            subtitles::vtt_text(cues.push(cue)) == subtitles::vtt_text(cues) + part
                && #[trigger] is_entry(
                part,
                cues.len() + 1,
                from,
                to,
                subtitles::vtt_escaped(shown),
            ) && is_clock(from, '.') && is_clock(to, '.') && subtitles::clock_millis(from)
                == shown_time(cue.bg) && subtitles::clock_millis(to) == shown_time(cue.ed),
{
    text_laws::law_trimming_takes_white_space_off_the_ends(front, shown, back);
    assert(cues.push(cue).drop_last() =~= cues);
    lemma_marks();
    let part = subtitles::vtt_block(cue, cues.len() + 1);
    if shown.len() > 0 {
        let from = subtitles::vtt_time_text(cue.bg as int);
        let to = subtitles::vtt_time_text(cue.ed as int);
        lemma_clock(cue.bg as int, '.');
        lemma_clock(cue.ed as int, '.');
        subtitles::law_times_read_back(cue.bg as int);
        subtitles::law_times_read_back(cue.ed as int);
        assert(is_entry(part, cues.len() + 1, from, to, subtitles::vtt_escaped(shown)));
    } else {
        assert(subtitles::vtt_text(cues.push(cue)) =~= subtitles::vtt_text(cues));
    }
}

/// What a text is escaped to, character by character: the three characters of markup become their
/// names, a line break becomes a space, and every other character stays.
pub proof fn law_escaping_goes_by_characters(s: Seq<char>, c: char)
    ensures
        subtitles::vtt_escaped(Seq::empty()).len() == 0,
        c == '&' ==> subtitles::vtt_escaped(s.push(c)) == subtitles::vtt_escaped(s) + "&amp;"@,
        c == '<' ==> subtitles::vtt_escaped(s.push(c)) == subtitles::vtt_escaped(s) + "&lt;"@,
        c == '>' ==> subtitles::vtt_escaped(s.push(c)) == subtitles::vtt_escaped(s) + "&gt;"@,
        c == '\n' || c == '\r' ==> subtitles::vtt_escaped(s.push(c)) == subtitles::vtt_escaped(
            s,
        ).push(' '),
        c != '&' && c != '<' && c != '>' && c != '\n' && c != '\r' ==> subtitles::vtt_escaped(
            s.push(c),
        ) == subtitles::vtt_escaped(s).push(c),
{
    assert(s.push(c).drop_last() =~= s);
    reveal_strlit(" ");
    assert(" "@ =~= seq![' ']);
    assert(subtitles::vtt_escaped(s) + seq![' '] =~= subtitles::vtt_escaped(s).push(' '));
    assert(subtitles::vtt_escaped(s) + seq![c] =~= subtitles::vtt_escaped(s).push(c));
}

/// What is saved for the subtitles of a lesson: the two files of all of its cues, under the name of
/// the lesson, between a report that they are written and one that they are saved. Both reports
/// carry the task, the lesson and the name of the SubRip file.
pub proof fn law_all_cues_are_saved(
    request: DownloadRequest,
    task_id: Seq<char>,
    cues: Seq<CueView>,
)
    ensures
        ({
            let plan = subtitles::subtitle_plan(request, task_id, cues);
            let stem = naming::safe_name(
                request.lesson_title@ + "_"@ + naming::date_of(request.begin_time@) + "_"@
                    + "AI字幕"@,
            );
            &&& plan.file_name == stem + ".srt"@
            &&& plan.caption_name == stem + ".vtt"@
            &&& plan.content == subtitles::srt_text(cues)
            &&& plan.captions == subtitles::vtt_text(cues)
            &&& plan.starting == (progress::ProgressView {
                task_id,
                lesson_id: request.lesson_id@,
                file_name: plan.file_name,
                stage: "writing-subtitles"@,
                downloaded: 0,
                total: None,
                message: "正在写入字幕"@,
            })
            &&& plan.finished == (progress::ProgressView {
                task_id,
                lesson_id: request.lesson_id@,
                file_name: plan.file_name,
                stage: "completed"@,
                downloaded: 0,
                total: None,
                message: "字幕已保存"@,
            })
        }),
{
}

} // verus!
