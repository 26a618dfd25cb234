//! What holds of courses, records and lessons, said of the members of the records themselves.

use vstd::prelude::*;

use crate::json;
use crate::json::JsonNode;
use crate::lessons;
use crate::lessons::{Course, LessonView};
use crate::text;
use crate::text_laws;

verus! {

// ---------------------------------------------------------------------------------------------
// Courses
// ---------------------------------------------------------------------------------------------

/// Courses are listed one after the other, each exactly where its name holds a character that is
/// not white space, whatever its number and its code are.
pub proof fn law_courses_are_listed_by_their_names(courses: Seq<Course>, course: Course)
    ensures
        lessons::named_courses(Seq::empty()).len() == 0,
        text_laws::says_something(course.name@) ==> lessons::named_courses(courses.push(course))
            == lessons::named_courses(courses).push(course),
        !text_laws::says_something(course.name@) ==> lessons::named_courses(courses.push(course))
            == lessons::named_courses(courses),
{
    lessons::lemma_named_push(courses, course);
    text_laws::law_trimming_leaves_what_is_said(course.name@);
}

/// The list holds exactly the courses whose names hold a character that is not white space.
pub proof fn law_named_courses_are_listed(courses: Seq<Course>)
    ensures
        forall|c: Course|
            #[trigger] lessons::named_courses(courses).contains(c) <==> courses.contains(c)
                && text_laws::says_something(c.name@),
    decreases courses.len(),
{
    if courses.len() == 0 {
        assert(courses =~= Seq::empty());
        lessons::lemma_named_push(courses, arbitrary());
    } else {
        let fewer = courses.drop_last();
        let last = courses.last();
        law_named_courses_are_listed(fewer);
        law_courses_are_listed_by_their_names(fewer, last);
        assert(courses =~= fewer.push(last));
        let few = lessons::named_courses(fewer);
        let all = lessons::named_courses(courses);
        assert forall|c: Course| #[trigger] all.contains(c) <==> courses.contains(c)
            && text_laws::says_something(c.name@) by {
            assert(few.contains(c) <==> fewer.contains(c) && text_laws::says_something(c.name@));
            lemma_push_contains(fewer, last, c);
            lemma_push_contains(few, last, c);
        }
    }
}

proof fn lemma_push_contains<A>(s: Seq<A>, last: A, x: A)
    ensures
        s.push(last).contains(x) <==> s.contains(x) || x == last,
{
    let t = s.push(last);
    if s.contains(x) {
        let i = choose|i: int| 0 <= i < s.len() && s[i] == x;
        assert(t[i] == x);
    }
    if x == last {
        assert(t[s.len() as int] == x);
    }
    if t.contains(x) {
        let i = choose|i: int| 0 <= i < t.len() && t[i] == x;
        if i < s.len() {
            assert(s[i] == x);
        }
    }
}

// ---------------------------------------------------------------------------------------------
// Members of records
// ---------------------------------------------------------------------------------------------

/// Whether the member `key` of a record is the text `t`.
pub open spec fn holds_text(
    nodes: Map<Seq<Seq<char>>, JsonNode>,
    key: Seq<char>,
    t: Seq<char>,
) -> bool {
    nodes.contains_key(seq![key]) && nodes[seq![key]] == JsonNode::Text(t)
}

/// Whether the member `key` of a record is no text, or is not there.
pub open spec fn holds_no_text(nodes: Map<Seq<Seq<char>>, JsonNode>, key: Seq<char>) -> bool {
    nodes.contains_key(seq![key]) ==> !(nodes[seq![key]] is Text)
}

proof fn lemma_member(nodes: Map<Seq<Seq<char>>, JsonNode>, key: Seq<char>)
    ensures
        nodes.contains_key(seq![key]) ==> json::member(nodes, key) is Some && json::root(
            json::member(nodes, key)->0,
        ) == nodes[seq![key]],
        !nodes.contains_key(seq![key]) ==> json::member(nodes, key) is None,
        nodes.contains_key(seq![key]) && nodes[seq![key]] is Text ==> json::member_text(nodes, key)
            == Some(nodes[seq![key]]->Text_0),
        holds_no_text(nodes, key) ==> json::member_text(nodes, key) is None,
{
    assert(seq![key] + Seq::<Seq<char>>::empty() =~= seq![key]);
}

/// What is read for some keys is the text of the first of them that has one, character for
/// character, and nothing where none has.
pub proof fn law_first_text_is_read(
    nodes: Map<Seq<Seq<char>>, JsonNode>,
    before: Seq<Seq<char>>,
    key: Seq<char>,
    behind: Seq<Seq<char>>,
    t: Seq<char>,
)
    requires
        forall|i: int| 0 <= i < before.len() ==> holds_no_text(nodes, #[trigger] before[i]),
    ensures
        holds_text(nodes, key, t) ==> json::first_text(nodes, before + seq![key] + behind) == t,
        json::first_text(nodes, before).len() == 0,
    decreases before.len(),
{
    let keys = before + seq![key] + behind;
    if before.len() == 0 {
        assert(keys[0] == key);
        lemma_member(nodes, key);
    } else {
        let rest = before.skip(1);
        assert(holds_no_text(nodes, before[0]));
        lemma_member(nodes, before[0]);
        assert forall|i: int| 0 <= i < rest.len() implies holds_no_text(nodes, #[trigger] rest[i]) by {
            assert(holds_no_text(nodes, before[i + 1]));
        }
        law_first_text_is_read(nodes, rest, key, behind, t);
        assert(keys[0] == before[0]);
        assert(keys.skip(1) =~= rest + seq![key] + behind);
    }
}

/// What is read as a number: an integer within the bounds as itself, a text as the integer that it
/// is the decimal form of, and everything else as zero.
pub proof fn law_numbers_of_members(nodes: Map<Seq<Seq<char>>, JsonNode>, key: Seq<char>)
    ensures
        !nodes.contains_key(seq![key]) ==> json::member_i64(nodes, key) == 0,
        nodes.contains_key(seq![key]) ==> match nodes[seq![key]] {
            JsonNode::Integer(n) => json::member_i64(nodes, key) == if i64::MIN <= n <= i64::MAX {
                n
            } else {
                0
            },
            JsonNode::Text(t) => json::member_i64(nodes, key) == match text::i64_of(t) {
                Some(n) => n,
                None => 0i64,
            },
            _ => json::member_i64(nodes, key) == 0,
        },
{
    lemma_member(nodes, key);
}

/// What counts as a value in an announcement: a text that is not empty, as it is, and a number as
/// it is printed; nothing else.
pub proof fn law_values_are_texts_and_numbers(node: JsonNode)
    ensures
        match node {
            JsonNode::Text(t) => json::scalar_text(node) == if t.len() == 0 {
                None
            } else {
                Some(t)
            },
            JsonNode::Integer(n) => json::scalar_text(node) == Some(text::signed_decimal(n)),
            JsonNode::Float(t) => json::scalar_text(node) == Some(t),
            _ => json::scalar_text(node) is None,
        },
{
}

// ---------------------------------------------------------------------------------------------
// Lessons
// ---------------------------------------------------------------------------------------------

/// A record describes a lesson exactly where its `videoId` is a text that is not empty, and that
/// text is the lesson's, character for character.
pub proof fn law_lessons_go_by_their_videos(
    nodes: Map<Seq<Seq<char>>, JsonNode>,
    index: nat,
    t: Seq<char>,
)
    ensures
        holds_text(nodes, "videoId"@, t) && t.len() > 0 ==> (lessons::lesson_of(
            nodes,
            index,
        ) matches Some(lesson) && lesson.video_id == t),
        holds_text(nodes, "videoId"@, t) && t.len() == 0 ==> lessons::lesson_of(nodes, index)
            is None,
        holds_no_text(nodes, "videoId"@) ==> lessons::lesson_of(nodes, index) is None,
{
    let none = Seq::<Seq<char>>::empty();
    law_first_text_is_read(nodes, none, "videoId"@, none, t);
    assert(none + seq!["videoId"@] + none =~= seq!["videoId"@]);
    if holds_no_text(nodes, "videoId"@) {
        law_first_text_is_read(nodes, seq!["videoId"@], "videoId"@, none, t);
    }
}

/// The times of a lesson are the texts of its record, character for character: `courseBeginTime`
/// and `courseEndTime`, or `beginTime` and `endTime` where those are no texts.
pub proof fn law_times_are_those_of_the_record(
    nodes: Map<Seq<Seq<char>>, JsonNode>,
    index: nat,
    t: Seq<char>,
)
    requires
        lessons::lesson_of(nodes, index) is Some,
    ensures
        ({
            let lesson = lessons::lesson_of(nodes, index)->0;
            &&& holds_text(nodes, "courseBeginTime"@, t) ==> lesson.begin_time == t
            &&& holds_no_text(nodes, "courseBeginTime"@) && holds_text(nodes, "beginTime"@, t)
                ==> lesson.begin_time == t
            &&& holds_no_text(nodes, "courseBeginTime"@) && holds_no_text(nodes, "beginTime"@)
                ==> lesson.begin_time.len() == 0
            &&& holds_text(nodes, "courseEndTime"@, t) ==> lesson.end_time == t
            &&& holds_no_text(nodes, "courseEndTime"@) && holds_text(nodes, "endTime"@, t)
                ==> lesson.end_time == t
            &&& holds_no_text(nodes, "courseEndTime"@) && holds_no_text(nodes, "endTime"@)
                ==> lesson.end_time.len() == 0
        }),
{
    lemma_two_keys(nodes, "courseBeginTime"@, "beginTime"@, t);
    lemma_two_keys(nodes, "courseEndTime"@, "endTime"@, t);
}

proof fn lemma_two_keys(
    nodes: Map<Seq<Seq<char>>, JsonNode>,
    a: Seq<char>,
    b: Seq<char>,
    t: Seq<char>,
)
    ensures
        holds_text(nodes, a, t) ==> json::first_text(nodes, seq![a, b]) == t,
        holds_no_text(nodes, a) && holds_text(nodes, b, t) ==> json::first_text(nodes, seq![a, b])
            == t,
        holds_no_text(nodes, a) && holds_no_text(nodes, b) ==> json::first_text(
            nodes,
            seq![a, b],
        ).len() == 0,
{
    let none = Seq::<Seq<char>>::empty();
    law_first_text_is_read(nodes, none, a, seq![b], t);
    assert(none + seq![a] + seq![b] =~= seq![a, b]);
    if holds_no_text(nodes, a) {
        law_first_text_is_read(nodes, seq![a], b, none, t);
        assert(seq![a] + seq![b] + none =~= seq![a, b]);
        if holds_no_text(nodes, b) {
            law_first_text_is_read(nodes, seq![a, b], b, none, t);
        }
    }
}

proof fn lemma_three_keys(
    nodes: Map<Seq<Seq<char>>, JsonNode>,
    a: Seq<char>,
    b: Seq<char>,
    c: Seq<char>,
    t: Seq<char>,
)
    ensures
        holds_text(nodes, a, t) ==> json::first_text(nodes, seq![a, b, c]) == t,
        holds_no_text(nodes, a) && holds_text(nodes, b, t) ==> json::first_text(
            nodes,
            seq![a, b, c],
        ) == t,
        holds_no_text(nodes, a) && holds_no_text(nodes, b) && holds_text(nodes, c, t)
            ==> json::first_text(nodes, seq![a, b, c]) == t,
        holds_no_text(nodes, a) && holds_no_text(nodes, b) && holds_no_text(nodes, c)
            ==> json::first_text(nodes, seq![a, b, c]).len() == 0,
{
    let none = Seq::<Seq<char>>::empty();
    law_first_text_is_read(nodes, none, a, seq![b, c], t);
    assert(none + seq![a] + seq![b, c] =~= seq![a, b, c]);
    if holds_no_text(nodes, a) {
        law_first_text_is_read(nodes, seq![a], b, seq![c], t);
        assert(seq![a] + seq![b] + seq![c] =~= seq![a, b, c]);
        if holds_no_text(nodes, b) {
            law_first_text_is_read(nodes, seq![a, b], c, none, t);
            assert(seq![a, b] + seq![c] + none =~= seq![a, b, c]);
            if holds_no_text(nodes, c) {
                law_first_text_is_read(nodes, seq![a, b, c], c, none, t);
            }
        }
    }
}

/// Whether `t` is the first text among three members of a record.
pub open spec fn is_first_text(
    nodes: Map<Seq<Seq<char>>, JsonNode>,
    a: Seq<char>,
    b: Seq<char>,
    c: Seq<char>,
    t: Seq<char>,
) -> bool {
    ||| holds_text(nodes, a, t)
    ||| holds_no_text(nodes, a) && holds_text(nodes, b, t)
    ||| holds_no_text(nodes, a) && holds_no_text(nodes, b) && holds_text(nodes, c, t)
}

/// The room of a lesson is the first text of its record that names one, character for character.
pub proof fn law_rooms_are_those_of_the_record(
    nodes: Map<Seq<Seq<char>>, JsonNode>,
    index: nat,
    t: Seq<char>,
)
    requires
        lessons::lesson_of(nodes, index) is Some,
    ensures
        ({
            let lesson = lessons::lesson_of(nodes, index)->0;
            &&& is_first_text(nodes, "classroomName"@, "classroom"@, "roomName"@, t)
                ==> lesson.classroom == t
            &&& holds_no_text(nodes, "classroomName"@) && holds_no_text(nodes, "classroom"@)
                && holds_no_text(nodes, "roomName"@) ==> lesson.classroom.len() == 0
        }),
{
    lemma_three_keys(nodes, "classroomName"@, "classroom"@, "roomName"@, t);
}

/// The title of a lesson is the first text of its record that names one, without the white space
/// around it. Where that says nothing, or there is none, the title is the place of the record in the
/// list, counted from one and written with two digits at least.
pub proof fn law_titles_are_those_of_the_record(
    nodes: Map<Seq<Seq<char>>, JsonNode>,
    index: nat,
    front: Seq<char>,
    title: Seq<char>,
    back: Seq<char>,
)
    requires
        lessons::lesson_of(nodes, index) is Some,
        text_laws::is_blank(front),
        text_laws::is_blank(back),
        title.len() > 0 ==> !text::white_space(title[0]) && !text::white_space(title.last()),
    ensures
        ({
            let lesson = lessons::lesson_of(nodes, index)->0;
            let given = front + title + back;
            let by_place = "第"@ + text::padded(index + 1, 2) + "讲"@;
            &&& is_first_text(nodes, "courseName"@, "videoName"@, "title"@, given) ==> lesson.title
                == if title.len() > 0 {
                title
            } else {
                by_place
            }
            &&& holds_no_text(nodes, "courseName"@) && holds_no_text(nodes, "videoName"@)
                && holds_no_text(nodes, "title"@) ==> lesson.title == by_place
        }),
{
    let given = front + title + back;
    lemma_three_keys(nodes, "courseName"@, "videoName"@, "title"@, given);
    text_laws::law_trimming_takes_white_space_off_the_ends(front, title, back);
    let none = Seq::<char>::empty();
    text_laws::law_trimming_takes_white_space_off_the_ends(none, none, none);
    assert(none + none + none =~= none);
    if holds_no_text(nodes, "courseName"@) && holds_no_text(nodes, "videoName"@) && holds_no_text(
        nodes,
        "title"@,
    ) {
        assert(json::first_text(nodes, seq!["courseName"@, "videoName"@, "title"@]) =~= none);
    }
}

/// The audit status of a lesson is the number of the member `videAuditStatus` of its record.
pub proof fn law_audits_are_those_of_the_record(nodes: Map<Seq<Seq<char>>, JsonNode>, index: nat)
    requires
        lessons::lesson_of(nodes, index) is Some,
    ensures
        ({
            let audit = (lessons::lesson_of(nodes, index)->0).audit_status;
            &&& !nodes.contains_key(seq!["videAuditStatus"@]) ==> audit == 0
            &&& nodes.contains_key(seq!["videAuditStatus"@]) ==> match nodes[seq![
                "videAuditStatus"@,
            ]] {
                JsonNode::Integer(n) => audit == if i64::MIN <= n <= i64::MAX {
                    n
                } else {
                    0
                },
                JsonNode::Text(t) => audit == match text::i64_of(t) {
                    Some(n) => n,
                    None => 0i64,
                },
                _ => audit == 0,
            }
        }),
{
    law_numbers_of_members(nodes, "videAuditStatus"@);
}

/// Whether a record has a video: its `videoId` is a text that is not empty.
pub open spec fn has_video(nodes: Map<Seq<Seq<char>>, JsonNode>) -> bool {
    nodes.contains_key(seq!["videoId"@]) && (nodes[seq!["videoId"@]] matches JsonNode::Text(t)
        && t.len() > 0)
}

/// How many of some records have a video.
pub open spec fn count_videos(records: Seq<Map<Seq<Seq<char>>, JsonNode>>) -> nat
    decreases records.len(),
{
    if records.len() == 0 {
        0
    } else if has_video(records.last()) {
        count_videos(records.drop_last()) + 1
    } else {
        count_videos(records.drop_last())
    }
}

/// Every record with a video is listed, once and in order, as the lesson that it describes at its
/// place, and nothing else is.
pub proof fn law_every_video_is_listed(records: Seq<Map<Seq<Seq<char>>, JsonNode>>)
    ensures
        lessons::lessons_of(records).len() == count_videos(records),
        forall|i: int|
            0 <= i < records.len() && has_video(#[trigger] records[i]) ==> {
                let k = count_videos(records.take(i)) as int;
                &&& k < lessons::lessons_of(records).len()
                &&& lessons::lesson_of(records[i], i as nat) == Some(
                    lessons::lessons_of(records)[k],
                )
            },
    decreases records.len(),
{
    if records.len() > 0 {
        let fewer = records.drop_last();
        let last = records.len() - 1;
        law_every_video_is_listed(fewer);
        assert(records.last() == records[last]);
        lemma_has_video(records[last], last as nat);
        let few = lessons::lessons_of(fewer);
        let all = lessons::lessons_of(records);
        assert(records.take(last) =~= fewer);
        assert forall|i: int| 0 <= i < records.len() && has_video(#[trigger] records[i]) implies {
            let k = count_videos(records.take(i)) as int;
            &&& k < all.len()
            &&& lessons::lesson_of(records[i], i as nat) == Some(all[k])
        } by {
            if i < last {
                assert(fewer[i] == records[i]);
                assert(fewer.take(i) =~= records.take(i));
                let k = count_videos(fewer.take(i)) as int;
                assert(few[k] == all[k]);
            }
        }
    }
}

proof fn lemma_has_video(nodes: Map<Seq<Seq<char>>, JsonNode>, index: nat)
    ensures
        has_video(nodes) <==> lessons::lesson_of(nodes, index) is Some,
{
    if nodes.contains_key(seq!["videoId"@]) && nodes[seq!["videoId"@]] is Text {
        law_lessons_go_by_their_videos(nodes, index, nodes[seq!["videoId"@]]->Text_0);
    } else {
        law_lessons_go_by_their_videos(nodes, index, Seq::empty());
    }
}

/// Lessons are shown one after the other, each exactly where its audit status is three, whatever
/// else it holds.
pub proof fn law_lessons_are_shown_by_their_audit(lessons_so_far: Seq<LessonView>, lesson: LessonView)
    ensures
        lessons::open_views(Seq::empty()).len() == 0,
        lessons::open_views(lessons_so_far.push(lesson)) == if lesson.audit_status == 3 {
            lessons::open_views(lessons_so_far).push(lesson)
        } else {
            lessons::open_views(lessons_so_far)
        },
{
    reveal_with_fuel(Seq::filter, 1);
    assert(lessons_so_far.push(lesson).drop_last() =~= lessons_so_far);
}

} // verus!
