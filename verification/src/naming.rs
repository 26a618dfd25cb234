//! The names under which recordings are saved.

use vstd::prelude::*;

use crate::text;

verus! {

// ---------------------------------------------------------------------------------------------
// Names that a file system takes
// ---------------------------------------------------------------------------------------------

/// The characters that cannot stand in the name of a file.
pub open spec fn illegal(c: char) -> bool {
    ||| c == '<'
    ||| c == '>'
    ||| c == ':'
    ||| c == '"'
    ||| c == '/'
    ||| c == '\\'
    ||| c == '|'
    ||| c == '?'
    ||| c == '*'
    ||| text::control(c)
}

/// The character itself, or an underscore where it cannot stand in the name of a file.
pub open spec fn legal_char(c: char) -> char {
    if illegal(c) {
        '_'
    } else {
        c
    }
}

/// The text with an underscore for each character that cannot stand in the name of a file.
pub open spec fn replaced(s: Seq<char>) -> Seq<char> {
    s.map_values(|c: char| legal_char(c))
}

/// What is left of a text without the white space at its ends and the dots and spaces before it.
pub open spec fn stripped(s: Seq<char>) -> Seq<char> {
    text::trim(text::trim_end_by(text::trim(s), |c: char| text::dot_or_space(c)))
}

/// How many characters a name has at most.
pub const NAME_LIMIT: usize = 120;

/// The name of a file that a text comes to.
pub open spec fn safe_name(s: Seq<char>) -> Seq<char> {
    let name = stripped(replaced(s));
    if name.len() == 0 {
        "课程录像"@
    } else if name.len() > NAME_LIMIT {
        name.take(NAME_LIMIT as int)
    } else {
        name
    }
}

/// The character itself, or an underscore where it cannot stand in the name of a file.
fn make_legal(c: char) -> (r: char)
    ensures
        r == legal_char(c),
{
    if c == '<' || c == '>' || c == ':' || c == '"' || c == '/' || c == '\\' || c == '|' || c == '?'
        || c == '*' || text::is_control(c) {
        '_'
    } else {
        c
    }
}

/// The characters of a text, with an underscore for each that cannot stand in the name of a file.
fn legal_chars(value: &str) -> (r: Vec<char>)
    ensures
        r@ == replaced(value@),
{
    let mut chars = text::chars_of(value);
    let n: usize = chars.len();
    let mut i: usize = 0;
    while i < n
        invariant
            i <= n == chars@.len(),
            n == value@.len(),
            forall|j: int| 0 <= j < i ==> chars@[j] == legal_char(value@[j]),
            forall|j: int| i <= j < n ==> chars@[j] == value@[j],
        decreases n - i,
    {
        let c: char = chars[i];
        chars.set(i, make_legal(c));
        i = i + 1;
    }
    assert(chars@ == replaced(value@));
    chars
}

/// The name of a file that a text comes to: characters that cannot stand in one become
/// underscores, white space at the ends and dots and spaces at the end are dropped, and what is
/// left is cut to its first characters. Where nothing is left, the name is a fixed one.
pub fn safe_filename(value: &str) -> (r: String)
    ensures
        r@ == safe_name(value@),
{
    let chars = legal_chars(value);
    let n: usize = chars.len();
    let ghost all = replaced(value@);
    assert(chars@.subrange(0, n as int) == all);
    let (a, b) = text::trim_bounds(&chars, 0, n);
    let c = text::trim_dots_bound(&chars, a, b);
    let (d, e) = text::trim_bounds(&chars, a, c);
    assert(chars@.subrange(d as int, e as int) == stripped(all));
    if d == e {
        return "课程录像".to_owned();
    }
    if e - d > NAME_LIMIT {
        assert(chars@.subrange(d as int, d + NAME_LIMIT) == stripped(all).take(NAME_LIMIT as int));
        text::text_of(&chars, d, d + NAME_LIMIT)
    } else {
        text::text_of(&chars, d, e)
    }
}

// ---------------------------------------------------------------------------------------------
// The names of recordings
// ---------------------------------------------------------------------------------------------

/// The name of the signal that a track carries.
pub open spec fn signal_name(code: i64) -> Seq<char> {
    if code == 0 {
        "教师"@
    } else if code == 1 {
        "学生1"@
    } else if code == 2 {
        "学生2"@
    } else if code == 3 {
        "PPT"@
    } else if code == 4 {
        "合成"@
    } else {
        "视频"@
    }
}

/// The name of the signal that a track carries.
pub fn track_name(code: i64) -> (r: &'static str)
    ensures
        r@ == signal_name(code),
{
    match code {
        0 => "教师",
        1 => "学生1",
        2 => "学生2",
        3 => "PPT",
        4 => "合成",
        _ => "视频",
    }
}

/// The date at the start of a time: its first ten bytes, where a character ends behind them.
pub open spec fn date_of(time: Seq<char>) -> Seq<char> {
    let bytes = vstd::utf8::encode_utf8(time);
    if vstd::utf8::is_char_boundary(bytes, 10) {
        vstd::utf8::decode_utf8(bytes.subrange(0, 10))
    } else {
        Seq::empty()
    }
}

/// The date at the start of a time.
pub fn date_prefix(time: &str) -> (r: &str)
    ensures
        r@ == date_of(time@),
{
    if time.is_char_boundary(10) {
        let (date, rest) = time.split_at(10);
        proof {
            vstd::utf8::encode_utf8_decode_utf8(date@);
        }
        date
    } else {
        proof {
            reveal_strlit("");
            assert(""@ == Seq::<char>::empty());
        }
        ""
    }
}

/// What the file of one signal of a lesson is named after.
pub open spec fn lesson_label(title: Seq<char>, time: Seq<char>, signal: Seq<char>) -> Seq<char> {
    title + "_"@ + date_of(time) + "_"@ + signal
}

/// What the file of a track is told apart by: its signal, and a number where `earlier` tracks of the
/// lesson carry the same one.
pub open spec fn track_label(code: i64, earlier: nat) -> Seq<char> {
    if earlier == 0 {
        signal_name(code)
    } else {
        signal_name(code) + "_"@ + text::decimal(earlier + 1)
    }
}

/// What follows the title in the name of a track's file.
pub open spec fn track_tail(time: Seq<char>, code: i64, earlier: nat) -> Seq<char> {
    "_"@ + replaced(date_of(time)) + "_"@ + track_label(code, earlier)
}

/// The title in the name of a file: without the white space that it starts with, and cut to `room`
/// characters.
pub open spec fn short_title(title: Seq<char>, room: int) -> Seq<char> {
    let head = text::trim_start(replaced(title));
    if head.len() <= room {
        head
    } else if room > 0 {
        head.take(room)
    } else {
        Seq::empty()
    }
}

/// The name, without its extension, of the file that a track of a lesson is saved under. Where it
/// would be too long, the title is cut.
pub open spec fn track_stem(
    title: Seq<char>,
    time: Seq<char>,
    code: i64,
    earlier: nat,
) -> Seq<char> {
    let tail = track_tail(time, code, earlier);
    short_title(title, NAME_LIMIT - tail.len()) + tail
}

/// The name of the file that a track of a lesson is saved under, where `earlier` tracks of the
/// lesson carry the same signal.
pub open spec fn numbered_video_name(
    title: Seq<char>,
    time: Seq<char>,
    code: i64,
    earlier: nat,
) -> Seq<char> {
    track_stem(title, time, code, earlier) + ".mp4"@
}

/// The name of the file that the first track of a lesson with its signal is saved under.
pub open spec fn video_name(title: Seq<char>, time: Seq<char>, code: i64) -> Seq<char> {
    numbered_video_name(title, time, code, 0)
}

/// The name of the file that the one track of a lesson is saved under.
pub open spec fn single_video_name(title: Seq<char>, time: Seq<char>, code: i64) -> Seq<char> {
    safe_name(lesson_label(title, time, signal_name(code))) + ".mp4"@
}

/// The safe name that the file of one signal of a lesson comes to as a whole.
fn safe_label(title: &str, time: &str, signal: &str) -> (r: String)
    ensures
        r@ == safe_name(lesson_label(title@, time@, signal@)),
{
    let mut label: String = title.to_owned();
    label.append("_");
    label.append(date_prefix(time));
    label.append("_");
    label.append(signal);
    safe_filename(label.as_str())
}

/// The name of the file that the one track of a lesson is saved under.
pub fn single_video_file_name(title: &str, time: &str, code: i64) -> (r: String)
    ensures
        r@ == single_video_name(title@, time@, code),
{
    let mut r = safe_label(title, time, track_name(code));
    r.append(".mp4");
    r
}

fn push_all(out: &mut String, chars: &Vec<char>)
    ensures
        final(out)@ == old(out)@ + chars@,
{
    let n: usize = chars.len();
    let whole = text::text_of(chars, 0, n);
    assert(chars@.subrange(0, n as int) == chars@);
    out.append(whole.as_str());
}

fn shorten_title(title: &str, room: usize) -> (r: String)
    ensures
        r@ == short_title(title@, room as int),
{
    let chars = legal_chars(title);
    let n: usize = chars.len();
    assert(chars@.subrange(0, n as int) == chars@);
    let from = text::trim_start_bound(&chars, 0, n);
    let ghost head = text::trim_start(replaced(title@));
    if n - from <= room {
        text::text_of(&chars, from, n)
    } else {
        assert(chars@.subrange(from as int, from + room) == head.take(room as int));
        text::text_of(&chars, from, from + room)
    }
}

/// The name of the file that a track of a lesson is saved under, where `earlier` tracks of the
/// lesson carry the same signal.
pub fn numbered_video_file_name(title: &str, time: &str, code: i64, earlier: u64) -> (r: String)
    requires
        earlier < u64::MAX,
    ensures
        r@ == numbered_video_name(title@, time@, code, earlier as nat),
{
    let mut tail: String = "_".to_owned();
    let date = legal_chars(date_prefix(time));
    push_all(&mut tail, &date);
    tail.append("_");
    let ghost front = tail@;
    tail.append(track_name(code));
    if earlier > 0 {
        tail.append("_");
        text::push_decimal(&mut tail, earlier + 1);
    }
    assert(tail@ == front + track_label(code, earlier as nat));
    assert(tail@ == track_tail(time@, code, earlier as nat));
    let length: usize = tail.as_str().unicode_len();
    let room: usize = if length < NAME_LIMIT {
        NAME_LIMIT - length
    } else {
        0
    };
    let mut r = shorten_title(title, room);
    r.append(tail.as_str());
    r.append(".mp4");
    r
}

/// The name of the file that the first track of a lesson with its signal is saved under.
pub fn video_file_name(title: &str, time: &str, code: i64) -> (r: String)
    ensures
        r@ == video_name(title@, time@, code),
{
    numbered_video_file_name(title, time, code, 0)
}

/// The name of a file while it is being downloaded.
pub open spec fn partial_name(file_name: Seq<char>) -> Seq<char> {
    file_name + ".part"@
}

/// The name of a file while it is being downloaded.
pub fn partial_file_name(file_name: &str) -> (r: String)
    ensures
        r@ == partial_name(file_name@),
{
    let mut r: String = file_name.to_owned();
    r.append(".part");
    r
}

/// The name, without its extension, of the files that the subtitles of a lesson are saved under.
pub open spec fn subtitle_stem(title: Seq<char>, time: Seq<char>) -> Seq<char> {
    safe_name(lesson_label(title, time, "AI字幕"@))
}

/// The name of the SubRip file that the subtitles of a lesson are saved under.
pub open spec fn subtitle_name(title: Seq<char>, time: Seq<char>) -> Seq<char> {
    subtitle_stem(title, time) + ".srt"@
}

/// The name of the WebVTT file that the subtitles of a lesson are saved under.
pub open spec fn caption_name(title: Seq<char>, time: Seq<char>) -> Seq<char> {
    subtitle_stem(title, time) + ".vtt"@
}

fn subtitle_file_stem(title: &str, time: &str) -> (r: String)
    ensures
        r@ == subtitle_stem(title@, time@),
{
    safe_label(title, time, "AI字幕")
}

/// The name of the SubRip file that the subtitles of a lesson are saved under.
pub fn subtitle_file_name(title: &str, time: &str) -> (r: String)
    ensures
        r@ == subtitle_name(title@, time@),
{
    let mut r = subtitle_file_stem(title, time);
    r.append(".srt");
    r
}

/// The name of the WebVTT file that the subtitles of a lesson are saved under.
pub fn caption_file_name(title: &str, time: &str) -> (r: String)
    ensures
        r@ == caption_name(title@, time@),
{
    let mut r = subtitle_file_stem(title, time);
    r.append(".vtt");
    r
}

// ---------------------------------------------------------------------------------------------
// Laws
// ---------------------------------------------------------------------------------------------

/// What is left of a text by stripping is a part of it, without white space at its ends.
proof fn lemma_stripped(s: Seq<char>) -> (k: int)
    ensures
        0 <= k <= k + stripped(s).len() <= s.len(),
        stripped(s) == s.subrange(k, k + stripped(s).len()),
        stripped(s).len() > 0 ==> !text::white_space(stripped(s)[0]),
{
    let a = text::trim(s);
    let i = text::lemma_trim(s);
    let b = text::trim_end_by(a, |c: char| text::dot_or_space(c));
    text::lemma_trim_end_by(a, |c: char| text::dot_or_space(c));
    let j = text::lemma_trim(b);
    let r = stripped(s);
    assert(r == s.subrange(i + j, i + j + r.len()));
    i + j
}

/// The name of a file is never empty, is never too long, and holds no character that cannot stand
/// in one.
pub proof fn law_file_names_are_safe(s: Seq<char>)
    ensures
        0 < safe_name(s).len() <= NAME_LIMIT,
        forall|i: int| 0 <= i < safe_name(s).len() ==> !illegal(#[trigger] safe_name(s)[i]),
{
    let all = replaced(s);
    let name = stripped(all);
    let k = lemma_stripped(all);
    let r = safe_name(s);
    reveal_strlit("课程录像");
    assert("课程录像"@.len() == 4);
    assert forall|i: int| 0 <= i < r.len() implies !illegal(#[trigger] r[i]) by {
        if name.len() > 0 {
            assert(r[i] == name[i]);
            assert(name[i] == all[k + i]);
            assert(all[k + i] == legal_char(s[k + i]));
        }
    }
}

/// Text without characters that cannot stand in a name is left as it is.
proof fn lemma_replaced_is_fixed(s: Seq<char>)
    requires
        forall|i: int| 0 <= i < s.len() ==> !illegal(#[trigger] s[i]),
    ensures
        replaced(s) == s,
{
    assert forall|i: int| 0 <= i < s.len() implies replaced(s)[i] == s[i] by {
        assert(!illegal(s[i]));
    }
}

/// A name that was made safe once is safe as it is: making it safe again changes nothing, unless
/// it ends with white space or a dot, as it can where it was cut.
pub proof fn law_safe_names_stay(s: Seq<char>)
    requires
        !text::white_space(safe_name(s).last()),
        safe_name(s).last() != '.',
    ensures
        safe_name(safe_name(s)) == safe_name(s),
{
    let r = safe_name(s);
    law_file_names_are_safe(s);
    lemma_replaced_is_fixed(r);
    let k = lemma_stripped(replaced(s));
    assert(!text::white_space(r[0])) by {
        reveal_strlit("课程录像");
        assert("课程录像"@.len() == 4);
        if stripped(replaced(s)).len() > 0 {
            assert(r[0] == stripped(replaced(s))[0]);
        } else {
            assert("课程录像"@[0] == '课');
        }
    }
    text::lemma_trimmed_is_fixed(r);
    assert(text::trim_end_by(r, |c: char| text::dot_or_space(c)) == r);
}

/// The encoding of two texts in a row is their encodings in a row.
proof fn lemma_encode_concat(a: Seq<char>, b: Seq<char>)
    ensures
        vstd::utf8::encode_utf8(a + b) == vstd::utf8::encode_utf8(a) + vstd::utf8::encode_utf8(b),
    decreases a.len(),
{
    if a.len() == 0 {
        assert(a + b == b);
    } else {
        lemma_encode_concat(a.drop_first(), b);
        assert((a + b).drop_first() == a.drop_first() + b);
    }
}

/// The date of a time that starts with ten characters of ASCII is these ten characters.
pub proof fn law_date_is_ten_characters(date: Seq<char>, rest: Seq<char>)
    requires
        date.len() == 10,
        vstd::utf8::is_ascii_chars(date),
    ensures
        date_of(date + rest) == date,
{
    let front = vstd::utf8::encode_utf8(date);
    let back = vstd::utf8::encode_utf8(rest);
    let bytes = vstd::utf8::encode_utf8(date + rest);
    lemma_encode_concat(date, rest);
    vstd::utf8::is_ascii_chars_encode_utf8(date);
    vstd::utf8::encode_utf8_valid_utf8(date + rest);
    vstd::utf8::encode_utf8_valid_utf8(rest);
    vstd::utf8::encode_utf8_decode_utf8(date);
    assert(bytes.subrange(0, 10) == front);
    if back.len() == 0 {
        vstd::utf8::is_char_boundary_start_end_of_seq(bytes);
    } else {
        vstd::utf8::is_char_boundary_start_end_of_seq(back);
        vstd::utf8::is_char_boundary_iff_not_is_continuation_byte(back, 0);
        assert(bytes[10] == back[0]);
        vstd::utf8::is_char_boundary_iff_not_is_continuation_byte(bytes, 10);
    }
}

/// White space at the start is dropped from what stands before other text.
proof fn lemma_trim_start_before(a: Seq<char>, b: Seq<char>)
    requires
        b.len() > 0,
        !text::white_space(b[0]),
    ensures
        text::trim_start(a + b) == text::trim_start(a) + b,
    decreases a.len(),
{
    if a.len() > 0 && text::white_space(a[0]) {
        lemma_trim_start_before(a.skip(1), b);
        assert((a + b).skip(1) == a.skip(1) + b);
    } else if a.len() == 0 {
        assert(a + b == b);
        assert(text::trim_start(a) + b == b);
    }
}

/// Text that ends with neither white space nor a dot loses only the white space at its start.
proof fn lemma_stripped_keeps_end(a: Seq<char>, b: Seq<char>)
    requires
        b.len() > 0,
        !text::white_space(b[0]),
        !text::white_space(b.last()),
        b.last() != '.',
    ensures
        stripped(a + b) == text::trim_start(a) + b,
{
    let t = text::trim_start(a) + b;
    lemma_trim_start_before(a, b);
    text::lemma_trim_start(a);
    assert(t.last() == b.last());
    assert(!text::white_space(t[0])) by {
        if text::trim_start(a).len() > 0 {
            assert(t[0] == text::trim_start(a)[0]);
        } else {
            assert(t[0] == b[0]);
        }
    }
    assert(text::trim(a + b) == t);
    assert(text::trim_end_by(t, |c: char| text::dot_or_space(c)) == t);
    text::lemma_trimmed_is_fixed(t);
}

/// The names of the signals hold characters that can stand in a name, and no underscore. They
/// neither start with a digit nor end with white space or a dot.
proof fn lemma_signal_name(code: i64)
    ensures
        0 < signal_name(code).len() <= 3,
        forall|i: int|
            0 <= i < signal_name(code).len() ==> !illegal(#[trigger] signal_name(code)[i])
                && signal_name(code)[i] != '_',
        !text::is_digit(signal_name(code)[0]),
        !text::white_space(signal_name(code).last()),
        signal_name(code).last() != '.',
{
    reveal_strlit("教师");
    reveal_strlit("学生1");
    reveal_strlit("学生2");
    reveal_strlit("PPT");
    reveal_strlit("合成");
    reveal_strlit("视频");
}

/// What tells the files of tracks apart holds characters that can stand in a name, and no white
/// space or dot at the end.
proof fn lemma_track_label(code: i64, earlier: nat)
    ensures
        track_label(code, earlier).len() > 0,
        forall|i: int|
            0 <= i < track_label(code, earlier).len() ==> !illegal(
                #[trigger] track_label(code, earlier)[i],
            ),
        !text::white_space(track_label(code, earlier).last()),
        track_label(code, earlier).last() != '.',
{
    lemma_signal_name(code);
    reveal_strlit("_");
    assert("_"@ == seq!['_']);
    if earlier > 0 {
        let digits = text::decimal(earlier + 1);
        text::lemma_decimal_reads_back(earlier + 1);
        let label = track_label(code, earlier);
        let k = signal_name(code).len() + 1;
        assert forall|i: int| 0 <= i < label.len() implies !illegal(#[trigger] label[i]) by {
            if i >= k {
                assert(label[i] == digits[i - k]);
                assert(text::is_digit(digits[i - k]));
            }
        }
        assert(label.last() == digits.last());
        assert(text::is_digit(digits[digits.len() - 1]));
    }
}

/// The name of a track's file before anything is cut.
proof fn lemma_uncut_name(title: Seq<char>, time: Seq<char>, code: i64, earlier: nat)
    ensures
        stripped(replaced(lesson_label(title, time, track_label(code, earlier))))
            == text::trim_start(replaced(title)) + track_tail(time, code, earlier),
{
    let last = track_label(code, earlier);
    let label = lesson_label(title, time, last);
    let a = replaced(title);
    let b = track_tail(time, code, earlier);
    reveal_strlit("_");
    assert("_"@ == seq!['_']);
    lemma_track_label(code, earlier);
    lemma_replaced_is_fixed(last);
    assert(replaced(label) == a + b) by {
        assert forall|i: int| 0 <= i < label.len() implies replaced(label)[i] == (a + b)[i] by {
            let k = title.len() + 1 + date_of(time).len() + 1;
            if i >= k {
                assert(label[i] == last[i - k]);
                assert(replaced(last)[i - k] == last[i - k]);
            }
        }
    }
    assert(b.last() == last.last());
    assert(b[0] == '_');
    lemma_stripped_keeps_end(a, b);
}

/// A track's file is named as any other text is, wherever that name need not be cut.
pub proof fn law_short_names_are_whole(title: Seq<char>, time: Seq<char>, code: i64, earlier: nat)
    requires
        stripped(replaced(lesson_label(title, time, track_label(code, earlier)))).len()
            <= NAME_LIMIT,
    ensures
        track_stem(title, time, code, earlier) == safe_name(
            lesson_label(title, time, track_label(code, earlier)),
        ),
{
    lemma_uncut_name(title, time, code, earlier);
    lemma_track_label(code, earlier);
}

/// No character takes less than a byte.
proof fn lemma_encoding_is_longer(s: Seq<char>)
    ensures
        s.len() <= vstd::utf8::encode_utf8(s).len(),
    decreases s.len(),
{
    if s.len() > 0 {
        lemma_encoding_is_longer(s.drop_first());
        vstd::utf8::char_is_scalar(s[0]);
    }
}

proof fn lemma_date_is_short(time: Seq<char>)
    ensures
        date_of(time).len() <= 10,
{
    let bytes = vstd::utf8::encode_utf8(time);
    vstd::utf8::encode_utf8_valid_utf8(time);
    if vstd::utf8::is_char_boundary(bytes, 10) {
        vstd::utf8::valid_utf8_split(bytes, 10);
        vstd::utf8::decode_utf8_encode_utf8(bytes.subrange(0, 10));
        lemma_encoding_is_longer(date_of(time));
    }
}

/// The name of a track's file is never too long, holds no character that cannot stand in one, and
/// starts with no white space.
pub proof fn law_track_names_are_safe(title: Seq<char>, time: Seq<char>, code: i64, earlier: u64)
    requires
        earlier < u64::MAX,
    ensures
        ({
            let stem = track_stem(title, time, code, earlier as nat);
            &&& 0 < stem.len() <= NAME_LIMIT
            &&& forall|i: int| 0 <= i < stem.len() ==> !illegal(#[trigger] stem[i])
            &&& !text::white_space(stem[0])
        }),
{
    let label = track_label(code, earlier as nat);
    let tail = track_tail(time, code, earlier as nat);
    let head = text::trim_start(replaced(title));
    let front = short_title(title, NAME_LIMIT - tail.len());
    let stem = track_stem(title, time, code, earlier as nat);
    reveal_strlit("_");
    assert("_"@ == seq!['_']);
    lemma_signal_name(code);
    lemma_track_label(code, earlier as nat);
    lemma_date_is_short(time);
    text::lemma_decimal_of_u64_is_short((earlier + 1) as u64);
    assert(label.len() <= 24);
    assert(tail.len() <= 36);
    text::lemma_trim_start(replaced(title));
    assert forall|i: int| 0 <= i < stem.len() implies !illegal(#[trigger] stem[i]) by {
        if i < front.len() {
            assert(stem[i] == head[i]);
            let k = replaced(title).len() - head.len();
            assert(head[i] == replaced(title)[k + i]);
            assert(replaced(title)[k + i] == legal_char(title[k + i]));
        } else {
            let j = i - front.len();
            let k = date_of(time).len() as int;
            assert(stem[i] == tail[j]);
            if 1 <= j <= k {
                assert(tail[j] == replaced(date_of(time))[j - 1]);
                assert(tail[j] == legal_char(date_of(time)[j - 1]));
            } else if j > k + 1 {
                assert(tail[j] == label[j - k - 2]);
            }
        }
    }
    assert(tail[0] == '_');
    if front.len() > 0 {
        assert(stem[0] == head[0]);
    } else {
        assert(stem[0] == tail[0]);
    }
}

/// What follows the last underscore of a text is one thing.
proof fn lemma_last_part(x: Seq<char>, a: Seq<char>, y: Seq<char>, b: Seq<char>)
    requires
        x + seq!['_'] + a == y + seq!['_'] + b,
        forall|i: int| 0 <= i < a.len() ==> #[trigger] a[i] != '_',
        forall|i: int| 0 <= i < b.len() ==> #[trigger] b[i] != '_',
    ensures
        x == y,
        a == b,
{
    let s = x + seq!['_'] + a;
    let t = y + seq!['_'] + b;
    if a.len() < b.len() {
        let i = s.len() - a.len() - 1;
        assert(s[i] == '_');
        assert(t[i] == b[i - y.len() - 1]);
    } else if b.len() < a.len() {
        let i = t.len() - b.len() - 1;
        assert(t[i] == '_');
        assert(s[i] == a[i - x.len() - 1]);
    }
    assert(s.take(x.len() as int) == x);
    assert(t.take(y.len() as int) == y);
    assert(s.skip(x.len() as int + 1) == a);
    assert(t.skip(y.len() as int + 1) == b);
}

/// What tells the files of tracks apart can be read from the ends of their names.
proof fn lemma_labels_read_back(
    x: Seq<char>,
    first: i64,
    before_first: nat,
    y: Seq<char>,
    second: i64,
    before_second: nat,
)
    requires
        x + "_"@ + track_label(first, before_first) == y + "_"@ + track_label(
            second,
            before_second,
        ),
    ensures
        signal_name(first) == signal_name(second),
        before_first == before_second,
{
    reveal_strlit("_");
    assert("_"@ == seq!['_']);
    let a = signal_name(first);
    let b = signal_name(second);
    let m = text::decimal(before_first + 1);
    let n = text::decimal(before_second + 1);
    lemma_signal_name(first);
    lemma_signal_name(second);
    text::lemma_decimal_reads_back(before_first + 1);
    text::lemma_decimal_reads_back(before_second + 1);
    assert forall|i: int| 0 <= i < m.len() implies #[trigger] m[i] != '_' by {
        assert(text::is_digit(m[i]));
    }
    assert forall|i: int| 0 <= i < n.len() implies #[trigger] n[i] != '_' by {
        assert(text::is_digit(n[i]));
    }
    let u = seq!['_'];
    if before_first == 0 && before_second == 0 {
        lemma_last_part(x, a, y, b);
    } else if before_first == 0 {
        assert(y + u + (b + u + n) == (y + u + b) + u + n);
        lemma_last_part(x, a, y + u + b, n);
        assert(text::is_digit(n[0]));
    } else if before_second == 0 {
        assert(x + u + (a + u + m) == (x + u + a) + u + m);
        lemma_last_part(x + u + a, m, y, b);
        assert(text::is_digit(m[0]));
    } else {
        assert(x + u + (a + u + m) == (x + u + a) + u + m);
        assert(y + u + (b + u + n) == (y + u + b) + u + n);
        lemma_last_part(x + u + a, m, y + u + b, n);
        lemma_last_part(x, a, y, b);
    }
}

/// Tracks of one lesson are saved under different names: two that carry different signals, and two
/// that carry the same one with a different number of tracks before them. This holds of every
/// title and time.
pub proof fn law_numbered_tracks_have_their_own_files(
    title: Seq<char>,
    time: Seq<char>,
    first: i64,
    before_first: nat,
    second: i64,
    before_second: nat,
)
    requires
        signal_name(first) != signal_name(second) || before_first != before_second,
    ensures
        numbered_video_name(title, time, first, before_first) != numbered_video_name(
            title,
            time,
            second,
            before_second,
        ),
{
    let a = numbered_video_name(title, time, first, before_first);
    let b = numbered_video_name(title, time, second, before_second);
    if a == b {
        let s = track_stem(title, time, first, before_first);
        let t = track_stem(title, time, second, before_second);
        assert(a.len() == s.len() + ".mp4"@.len());
        assert(b.len() == t.len() + ".mp4"@.len());
        assert(a.take(s.len() as int) == s);
        assert(b.take(t.len() as int) == t);
        let day = "_"@ + replaced(date_of(time));
        let x = short_title(title, NAME_LIMIT - track_tail(time, first, before_first).len()) + day;
        let y = short_title(title, NAME_LIMIT - track_tail(time, second, before_second).len())
            + day;
        assert(s == x + "_"@ + track_label(first, before_first));
        assert(t == y + "_"@ + track_label(second, before_second));
        lemma_labels_read_back(x, first, before_first, y, second, before_second);
    }
}

/// Tracks of one lesson that carry different signals are saved under different names.
pub proof fn law_tracks_have_their_own_files(
    title: Seq<char>,
    time: Seq<char>,
    first: i64,
    second: i64,
)
    ensures
        signal_name(first) != signal_name(second) ==> video_name(title, time, first) != video_name(
            title,
            time,
            second,
        ),
{
    if signal_name(first) != signal_name(second) {
        law_numbered_tracks_have_their_own_files(title, time, first, 0, second, 0);
    }
}

/// The signals that are known have names of their own.
pub proof fn law_known_signals_differ(first: i64, second: i64)
    requires
        0 <= first <= 4,
        signal_name(first) == signal_name(second),
    ensures
        first == second,
{
    reveal_strlit("教师");
    reveal_strlit("学生1");
    reveal_strlit("学生2");
    reveal_strlit("PPT");
    reveal_strlit("合成");
    reveal_strlit("视频");
    assert("教师"@[0] == '教');
    assert("学生1"@[0] == '学' && "学生1"@[2] == '1');
    assert("学生2"@[0] == '学' && "学生2"@[2] == '2');
    assert("PPT"@[0] == 'P');
    assert("合成"@[0] == '合');
    assert("视频"@[0] == '视');
}

} // verus!
