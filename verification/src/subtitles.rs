//! Subtitles in the SubRip and WebVTT formats.

use vstd::prelude::*;

use crate::naming;
use crate::progress::{DownloadProgress, DownloadRequest};
use crate::progress;
use crate::text;

verus! {

/// The subtitles of a recording.
#[derive(Debug)]
pub struct SubtitleData {
    pub after_assembly_list: Vec<SubtitleCue>,
}

/// A text that is shown from one time to another, in milliseconds.
#[derive(Debug)]
pub struct SubtitleCue {
    pub bg: i64,
    pub ed: i64,
    pub res: String,
}

/// What a [`SubtitleCue`] holds.
pub struct CueView {
    pub bg: i64,
    pub ed: i64,
    pub res: Seq<char>,
}

impl View for SubtitleCue {
    type V = CueView;

    open spec fn view(&self) -> CueView {
        CueView { bg: self.bg, ed: self.ed, res: self.res@ }
    }
}

/// What the cues of a sequence hold.
pub open spec fn cue_views(cues: Seq<SubtitleCue>) -> Seq<CueView> {
    cues.map_values(|c: SubtitleCue| c@)
}

/// A number of milliseconds that counts as none where it is negative.
pub open spec fn at_least_zero(milliseconds: int) -> nat {
    if milliseconds < 0 {
        0
    } else {
        milliseconds as nat
    }
}

/// A time in hours, minutes, seconds and milliseconds, with `mark` before the milliseconds.
pub open spec fn clock_text(milliseconds: int, mark: Seq<char>) -> Seq<char> {
    let value = at_least_zero(milliseconds);
    text::padded(value / 3_600_000, 2) + ":"@ + text::padded((value / 60_000) % 60, 2) + ":"@
        + text::padded((value / 1_000) % 60, 2) + mark + text::padded(value % 1_000, 3)
}

/// A time in the form `hours:minutes:seconds,milliseconds`.
pub open spec fn srt_time_text(milliseconds: int) -> Seq<char> {
    clock_text(milliseconds, ","@)
}

/// A time in the form `hours:minutes:seconds.milliseconds`.
pub open spec fn vtt_time_text(milliseconds: int) -> Seq<char> {
    clock_text(milliseconds, "."@)
}

fn clock_time(milliseconds: i64, mark: &str) -> (r: String)
    ensures
        r@ == clock_text(milliseconds as int, mark@),
{
    let value: u64 = if milliseconds < 0 {
        0
    } else {
        milliseconds as u64
    };
    let mut r: String = String::new();
    text::push_padded(&mut r, value / 3_600_000, 2);
    r.append(":");
    text::push_padded(&mut r, (value / 60_000) % 60, 2);
    r.append(":");
    text::push_padded(&mut r, (value / 1_000) % 60, 2);
    r.append(mark);
    text::push_padded(&mut r, value % 1_000, 3);
    assert(r@ == clock_text(milliseconds as int, mark@));
    r
}

/// A time in the form `hours:minutes:seconds,milliseconds`.
pub fn srt_time(milliseconds: i64) -> (r: String)
    ensures
        r@ == srt_time_text(milliseconds as int),
{
    clock_time(milliseconds, ",")
}

/// A time in the form `hours:minutes:seconds.milliseconds`.
pub fn vtt_time(milliseconds: i64) -> (r: String)
    ensures
        r@ == vtt_time_text(milliseconds as int),
{
    clock_time(milliseconds, ".")
}

// ---------------------------------------------------------------------------------------------
// SubRip
// ---------------------------------------------------------------------------------------------

/// The entry of a file for the cue with the given number; none for a cue of white space alone.
pub open spec fn cue_block(cue: CueView, number: nat) -> Seq<char> {
    let shown = text::trim(cue.res);
    if shown.len() == 0 {
        Seq::empty()
    } else {
        text::decimal(number) + "\n"@ + srt_time_text(cue.bg as int) + " --> "@ + srt_time_text(
            cue.ed as int,
        ) + "\n"@ + shown + "\n\n"@
    }
}

/// The SubRip file of some cues, which are numbered by their places in the list, counted from one.
pub open spec fn srt_text(cues: Seq<CueView>) -> Seq<char>
    decreases cues.len(),
{
    if cues.len() == 0 {
        Seq::empty()
    } else {
        srt_text(cues.drop_last()) + cue_block(cues.last(), cues.len())
    }
}

/// Appends the entry of a file for the cue with the given number.
fn push_cue(out: &mut String, cue: &SubtitleCue, number: u64)
    ensures
        final(out)@ == old(out)@ + cue_block(cue@, number as nat),
{
    let ghost before = out@;
    let shown = text::trim_text(cue.res.as_str());
    if shown.as_str().is_empty() {
        assert(out@ == before + cue_block(cue@, number as nat));
        return ;
    }
    let from = srt_time(cue.bg);
    let to = srt_time(cue.ed);
    text::push_decimal(out, number);
    out.append("\n");
    out.append(from.as_str());
    out.append(" --> ");
    out.append(to.as_str());
    out.append("\n");
    out.append(shown.as_str());
    out.append("\n\n");
    assert(out@ == before + cue_block(cue@, number as nat));
}

/// The SubRip file of some cues.
pub fn srt_document(cues: &Vec<SubtitleCue>) -> (r: String)
    ensures
        r@ == srt_text(cue_views(cues@)),
{
    let ghost all = cue_views(cues@);
    let mut r: String = String::new();
    let mut i: usize = 0;
    assert(all.take(0) == Seq::<CueView>::empty());
    while i < cues.len()
        invariant
            i <= cues@.len(),
            all == cue_views(cues@),
            r@ == srt_text(all.take(i as int)),
        decreases cues@.len() - i,
    {
        push_cue(&mut r, &cues[i], (i + 1) as u64);
        assert(all.take(i + 1).drop_last() == all.take(i as int));
        assert(all.take(i + 1).last() == cues@[i as int]@);
        i = i + 1;
    }
    assert(all.take(cues@.len() as int) == all);
    r
}

// ---------------------------------------------------------------------------------------------
// WebVTT
// ---------------------------------------------------------------------------------------------

/// What a WebVTT file starts with: its signature, and the note that the subtitles were made by
/// machine.
pub const VTT_HEADER: &'static str = "WEBVTT\n\nNOTE AI 生成字幕，仅供参考\n\n";

/// A character of a cue as WebVTT writes it: the characters of markup are escaped, and a line break
/// becomes a space, as an empty line would end the cue.
pub open spec fn vtt_char(c: char) -> Seq<char> {
    if c == '&' {
        "&amp;"@
    } else if c == '<' {
        "&lt;"@
    } else if c == '>' {
        "&gt;"@
    } else if c == '\n' || c == '\r' {
        " "@
    } else {
        seq![c]
    }
}

/// A text as WebVTT writes it.
pub open spec fn vtt_escaped(s: Seq<char>) -> Seq<char>
    decreases s.len(),
{
    if s.len() == 0 {
        Seq::empty()
    } else {
        vtt_escaped(s.drop_last()) + vtt_char(s.last())
    }
}

/// The entry of a WebVTT file for the cue with the given number; none for a cue of white space
/// alone.
pub open spec fn vtt_block(cue: CueView, number: nat) -> Seq<char> {
    let shown = text::trim(cue.res);
    if shown.len() == 0 {
        Seq::empty()
    } else {
        text::decimal(number) + "\n"@ + vtt_time_text(cue.bg as int) + " --> "@ + vtt_time_text(
            cue.ed as int,
        ) + "\n"@ + vtt_escaped(shown) + "\n\n"@
    }
}

/// The WebVTT file of some cues, which are numbered by their places in the list, counted from one.
pub open spec fn vtt_text(cues: Seq<CueView>) -> Seq<char>
    decreases cues.len(),
{
    if cues.len() == 0 {
        VTT_HEADER@
    } else {
        vtt_text(cues.drop_last()) + vtt_block(cues.last(), cues.len())
    }
}

/// Appends a text as WebVTT writes it.
fn push_escaped(out: &mut String, s: &str)
    ensures
        final(out)@ == old(out)@ + vtt_escaped(s@),
{
    let ghost all = s@;
    let chars = text::chars_of(s);
    let mut i: usize = 0;
    assert(all.take(0) == Seq::<char>::empty());
    assert(out@ == old(out)@ + vtt_escaped(all.take(0)));
    while i < chars.len()
        invariant
            i <= chars@.len(),
            chars@ == all,
            out@ == old(out)@ + vtt_escaped(all.take(i as int)),
        decreases chars@.len() - i,
    {
        let ghost before = out@;
        let c: char = chars[i];
        if c == '&' {
            out.append("&amp;");
        } else if c == '<' {
            out.append("&lt;");
        } else if c == '>' {
            out.append("&gt;");
        } else if c == '\n' || c == '\r' {
            out.append(" ");
        } else {
            out.push(c);
        }
        assert(out@ == before + vtt_char(c));
        assert(all.take(i + 1).drop_last() == all.take(i as int));
        assert(all.take(i + 1).last() == c);
        assert(out@ == old(out)@ + vtt_escaped(all.take(i + 1)));
        i = i + 1;
    }
    assert(all.take(all.len() as int) == all);
}

/// Appends the entry of a WebVTT file for the cue with the given number.
fn push_caption(out: &mut String, cue: &SubtitleCue, number: u64)
    ensures
        final(out)@ == old(out)@ + vtt_block(cue@, number as nat),
{
    let ghost before = out@;
    let shown = text::trim_text(cue.res.as_str());
    if shown.as_str().is_empty() {
        assert(out@ == before + vtt_block(cue@, number as nat));
        return ;
    }
    let from = vtt_time(cue.bg);
    let to = vtt_time(cue.ed);
    text::push_decimal(out, number);
    out.append("\n");
    out.append(from.as_str());
    out.append(" --> ");
    out.append(to.as_str());
    out.append("\n");
    push_escaped(out, shown.as_str());
    out.append("\n\n");
    assert(out@ == before + vtt_block(cue@, number as nat));
}

/// The WebVTT file of some cues.
pub fn vtt_document(cues: &Vec<SubtitleCue>) -> (r: String)
    ensures
        r@ == vtt_text(cue_views(cues@)),
{
    let ghost all = cue_views(cues@);
    let mut r: String = VTT_HEADER.to_owned();
    let mut i: usize = 0;
    assert(all.take(0) == Seq::<CueView>::empty());
    while i < cues.len()
        invariant
            i <= cues@.len(),
            all == cue_views(cues@),
            r@ == vtt_text(all.take(i as int)),
        decreases cues@.len() - i,
    {
        push_caption(&mut r, &cues[i], (i + 1) as u64);
        assert(all.take(i + 1).drop_last() == all.take(i as int));
        assert(all.take(i + 1).last() == cues@[i as int]@);
        i = i + 1;
    }
    assert(all.take(cues@.len() as int) == all);
    r
}

// ---------------------------------------------------------------------------------------------
// What is saved
// ---------------------------------------------------------------------------------------------

/// What is to be done for the subtitles of a lesson: to report `starting`, to write `content` to
/// the SubRip file and `captions` to the WebVTT file, and to report `finished`.
#[derive(Debug)]
pub struct SubtitlePlan {
    pub file_name: String,
    pub content: String,
    pub caption_name: String,
    pub captions: String,
    pub starting: DownloadProgress,
    pub finished: DownloadProgress,
}

/// What a [`SubtitlePlan`] holds.
pub struct SubtitlePlanView {
    pub file_name: Seq<char>,
    pub content: Seq<char>,
    pub caption_name: Seq<char>,
    pub captions: Seq<char>,
    pub starting: progress::ProgressView,
    pub finished: progress::ProgressView,
}

impl View for SubtitlePlan {
    type V = SubtitlePlanView;

    open spec fn view(&self) -> SubtitlePlanView {
        SubtitlePlanView {
            file_name: self.file_name@,
            content: self.content@,
            caption_name: self.caption_name@,
            captions: self.captions@,
            starting: self.starting@,
            finished: self.finished@,
        }
    }
}

/// A report about the subtitles of a lesson.
pub open spec fn subtitle_report(
    request: DownloadRequest,
    task_id: Seq<char>,
    stage: Seq<char>,
    message: Seq<char>,
) -> progress::ProgressView {
    progress::ProgressView {
        task_id,
        lesson_id: request.lesson_id@,
        file_name: naming::subtitle_name(request.lesson_title@, request.begin_time@),
        stage,
        downloaded: 0,
        total: None,
        message,
    }
}

/// What is to be done for the subtitles of a lesson.
pub open spec fn subtitle_plan(
    request: DownloadRequest,
    task_id: Seq<char>,
    cues: Seq<CueView>,
) -> SubtitlePlanView {
    SubtitlePlanView {
        file_name: naming::subtitle_name(request.lesson_title@, request.begin_time@),
        content: srt_text(cues),
        caption_name: naming::caption_name(request.lesson_title@, request.begin_time@),
        captions: vtt_text(cues),
        starting: subtitle_report(request, task_id, "writing-subtitles"@, "正在写入字幕"@),
        finished: subtitle_report(request, task_id, "completed"@, "字幕已保存"@),
    }
}

/// What is to be done for the subtitles of a lesson, where the service has any.
pub fn plan_subtitles(
    request: &DownloadRequest,
    task_id: &str,
    data: Option<SubtitleData>,
) -> (r: Option<SubtitlePlan>)
    ensures
        match r {
            Some(plan) => data matches Some(found) && found.after_assembly_list@.len() > 0 && plan@
                == subtitle_plan(*request, task_id@, cue_views(found.after_assembly_list@)),
            None => data matches Some(found) ==> found.after_assembly_list@.len() == 0,
        },
{
    let Some(found) = data else {
        return None;
    };
    if found.after_assembly_list.is_empty() {
        return None;
    }
    let file_name = naming::subtitle_file_name(
        request.lesson_title.as_str(),
        request.begin_time.as_str(),
    );
    let content = srt_document(&found.after_assembly_list);
    let caption_name = naming::caption_file_name(
        request.lesson_title.as_str(),
        request.begin_time.as_str(),
    );
    let captions = vtt_document(&found.after_assembly_list);
    let starting = DownloadProgress {
        task_id: task_id.to_owned(),
        lesson_id: request.lesson_id.clone(),
        file_name: file_name.clone(),
        stage: "writing-subtitles",
        downloaded: 0,
        total: None,
        message: "正在写入字幕".to_owned(),
    };
    let finished = DownloadProgress {
        task_id: task_id.to_owned(),
        lesson_id: request.lesson_id.clone(),
        file_name: file_name.clone(),
        stage: "completed",
        downloaded: 0,
        total: None,
        message: "字幕已保存".to_owned(),
    };
    Some(SubtitlePlan { file_name, content, caption_name, captions, starting, finished })
}

// ---------------------------------------------------------------------------------------------
// Laws
// ---------------------------------------------------------------------------------------------

/// The number of milliseconds that a time in hours, minutes, seconds and milliseconds stands for;
/// the last three fields have two, two and three digits, and one character stands before each.
pub open spec fn clock_millis(s: Seq<char>) -> int {
    let n = s.len();
    text::number_of(s.take(n - 10)) * 3_600_000 + text::number_of(s.subrange(n - 9, n - 7)) * 60_000
        + text::number_of(s.subrange(n - 6, n - 4)) * 1_000 + text::number_of(
        s.subrange(n - 3, n as int),
    )
}

proof fn lemma_two_digits(n: nat)
    requires
        n < 100,
    ensures
        text::padded(n, 2).len() == 2,
{
    text::lemma_decimal_is_short(n);
    text::lemma_decimal_reads_back(n);
}

proof fn lemma_three_digits(n: nat)
    requires
        n < 1000,
    ensures
        text::padded(n, 3).len() == 3,
{
    text::lemma_decimal_is_short(n);
    text::lemma_decimal_reads_back(n);
}

proof fn lemma_fields(h: Seq<char>, m: Seq<char>, s: Seq<char>, mark: Seq<char>, u: Seq<char>)
    requires
        m.len() == 2,
        s.len() == 2,
        mark.len() == 1,
        u.len() == 3,
    ensures
        ({
            let t = h + ":"@ + m + ":"@ + s + mark + u;
            let n = t.len();
            &&& t.take(n - 10) == h
            &&& t.subrange(n - 9, n - 7) == m
            &&& t.subrange(n - 6, n - 4) == s
            &&& t.subrange(n - 3, n as int) == u
        }),
{
    reveal_strlit(":");
    assert(":"@.len() == 1);
}

proof fn lemma_units(value: nat)
    ensures
        value == (value / 3_600_000) * 3_600_000 + ((value / 60_000) % 60) * 60_000 + ((value
            / 1_000) % 60) * 1_000 + value % 1_000,
{
    let seconds = value / 1_000;
    let minutes = seconds / 60;
    let hours = minutes / 60;
    assert(value == seconds * 1_000 + value % 1_000);
    assert(seconds == minutes * 60 + seconds % 60);
    assert(minutes == hours * 60 + minutes % 60);
    assert(value / 60_000 == minutes);
    assert(value / 3_600_000 == hours);
}

proof fn lemma_clock_reads_back(milliseconds: int, mark: Seq<char>)
    requires
        mark.len() == 1,
    ensures
        clock_millis(clock_text(milliseconds, mark)) == at_least_zero(milliseconds),
{
    let value = at_least_zero(milliseconds);
    let h = value / 3_600_000;
    let m = (value / 60_000) % 60;
    let s = (value / 1_000) % 60;
    let u = value % 1_000;
    text::lemma_padded_reads_back(h, 2);
    text::lemma_padded_reads_back(m, 2);
    text::lemma_padded_reads_back(s, 2);
    text::lemma_padded_reads_back(u, 3);
    lemma_two_digits(m);
    lemma_two_digits(s);
    lemma_three_digits(u);
    lemma_fields(
        text::padded(h, 2),
        text::padded(m, 2),
        text::padded(s, 2),
        mark,
        text::padded(u, 3),
    );
    lemma_units(value);
}

/// A time that is written, in either form, and read again is the same time, with a negative one
/// counted as zero.
pub proof fn law_times_read_back(milliseconds: int)
    ensures
        clock_millis(srt_time_text(milliseconds)) == at_least_zero(milliseconds),
        clock_millis(vtt_time_text(milliseconds)) == at_least_zero(milliseconds),
{
    reveal_strlit(",");
    reveal_strlit(".");
    lemma_clock_reads_back(milliseconds, ","@);
    lemma_clock_reads_back(milliseconds, "."@);
}

/// The text of a cue breaks no line of a WebVTT file and holds no markup, so that nothing in it can
/// be taken for the end of the cue or the times of another.
pub proof fn law_captions_are_plain(s: Seq<char>)
    ensures
        forall|i: int|
            0 <= i < vtt_escaped(s).len() ==> {
                let c = #[trigger] vtt_escaped(s)[i];
                c != '<' && c != '>' && c != '\n' && c != '\r'
            },
    decreases s.len(),
{
    if s.len() > 0 {
        law_captions_are_plain(s.drop_last());
        reveal_strlit("&amp;");
        reveal_strlit("&lt;");
        reveal_strlit("&gt;");
        reveal_strlit(" ");
        let front = vtt_escaped(s.drop_last());
        let all = vtt_escaped(s);
        assert forall|i: int| 0 <= i < all.len() implies {
            let c = #[trigger] all[i];
            c != '<' && c != '>' && c != '\n' && c != '\r'
        } by {
            if i < front.len() {
                assert(all[i] == front[i]);
            } else {
                assert(all[i] == vtt_char(s.last())[i - front.len()]);
            }
        }
    }
}

/// The files of some cues start with the files of the first ones: a cue keeps its number and its
/// text, whatever follows it.
pub proof fn law_earlier_cues_stay(cues: Seq<CueView>, k: int)
    requires
        0 <= k <= cues.len(),
    ensures
        srt_text(cues.take(k)).is_prefix_of(srt_text(cues)),
        vtt_text(cues.take(k)).is_prefix_of(vtt_text(cues)),
    decreases cues.len(),
{
    if k == cues.len() {
        assert(cues.take(k) == cues);
    } else {
        law_earlier_cues_stay(cues.drop_last(), k);
        assert(cues.drop_last().take(k) == cues.take(k));
        let a = srt_text(cues.take(k));
        let b = srt_text(cues.drop_last());
        let c = srt_text(cues);
        assert(c.take(a.len() as int) == b.take(a.len() as int));
        let x = vtt_text(cues.take(k));
        let y = vtt_text(cues.drop_last());
        let z = vtt_text(cues);
        assert(z.take(x.len() as int) == y.take(x.len() as int));
    }
}

} // verus!
