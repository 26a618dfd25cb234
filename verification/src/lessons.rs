//! Courses and the lessons that were recorded for them.

use vstd::prelude::*;

use crate::json;
use crate::record_laws;
use crate::text;
use crate::text_laws;

verus! {

/// A course of the learning platform.
#[derive(Clone, Debug)]
pub struct Course {
    pub id: u64,
    pub name: String,
    pub course_code: String,
}

/// A recorded lesson.
#[derive(Clone, Debug)]
pub struct Lesson {
    pub video_id: String,
    pub title: String,
    pub begin_time: String,
    pub end_time: String,
    pub classroom: String,
    pub audit_status: i64,
}

/// What a [`Lesson`] holds.
pub struct LessonView {
    pub video_id: Seq<char>,
    pub title: Seq<char>,
    pub begin_time: Seq<char>,
    pub end_time: Seq<char>,
    pub classroom: Seq<char>,
    pub audit_status: i64,
}

impl View for Lesson {
    type V = LessonView;

    open spec fn view(&self) -> LessonView {
        LessonView {
            video_id: self.video_id@,
            title: self.title@,
            begin_time: self.begin_time@,
            end_time: self.end_time@,
            classroom: self.classroom@,
            audit_status: self.audit_status,
        }
    }
}

/// The audit status of a recording that is open to students.
pub const OPEN_AUDIT_STATUS: i64 = 3;

/// Whether a course has a name that is more than white space.
pub open spec fn is_named(course: Course) -> bool {
    text::trim(course.name@).len() > 0
}

/// The courses that have a name, in order.
pub open spec fn named_courses(courses: Seq<Course>) -> Seq<Course> {
    courses.filter(|c: Course| is_named(c))
}

/// A list of courses and one more.
pub(crate) proof fn lemma_named_push(courses: Seq<Course>, course: Course)
    ensures
        named_courses(Seq::empty()) == Seq::<Course>::empty(),
        named_courses(courses.push(course)) == if is_named(course) {
            named_courses(courses).push(course)
        } else {
            named_courses(courses)
        },
{
    reveal_with_fuel(Seq::filter, 1);
    assert(courses.push(course).drop_last() =~= courses);
    assert(named_courses(Seq::empty()) =~= Seq::<Course>::empty());
}

/// The courses that have a name, in order: those with a character in it that is not white space.
pub fn visible_courses(courses: Vec<Course>) -> (r: Vec<Course>)
    ensures
        r@ == named_courses(courses@),
        forall|c: Course|
            #[trigger] r@.contains(c) <==> courses@.contains(c) && text_laws::says_something(
                c.name@,
            ),
{
    let ghost all = courses@;
    let mut r: Vec<Course> = Vec::new();
    proof {
        assert(all.take(0) =~= Seq::<Course>::empty());
        if all.len() > 0 {
            lemma_named_push(all.take(0), all[0]);
        } else {
            reveal_with_fuel(Seq::filter, 1);
        }
        assert(named_courses(all.take(0)) =~= Seq::<Course>::empty());
    }
    for course in it: courses.into_iter()
        invariant
            it.seq() == all,
            r@ == named_courses(all.take(it.index())),
    {
        let ghost i = it.index();
        proof {
            lemma_named_push(all.take(i), all[i]);
            assert(all.take(i + 1) =~= all.take(i).push(all[i]));
        }
        let name = text::trim_text(course.name.as_str());
        if !name.as_str().is_empty() {
            r.push(course);
        }
    }
    assert(all.take(all.len() as int) == all);
    proof {
        record_laws::law_named_courses_are_listed(all);
    }
    r
}

/// Strings that stand in for an empty one.
pub trait StringFallback: View<V = Seq<char>> + Sized {
    /// The string itself, or what `fallback` gives where it is empty.
    fn or_else_if_empty<F: FnOnce() -> String>(self, fallback: F) -> (r: String)
        requires
            self@.len() == 0 ==> fallback.requires(()),
        ensures
            self@.len() > 0 ==> r@ == self@,
            self@.len() == 0 ==> fallback.ensures((), r),
    ;
}

impl StringFallback for String {
    fn or_else_if_empty<F: FnOnce() -> String>(self, fallback: F) -> (r: String) {
        if self.as_str().is_empty() {
            fallback()
        } else {
            self
        }
    }
}

/// The title of a lesson that has none: its place in the list, counted from one.
pub open spec fn ordinal_title(ordinal: nat) -> Seq<char> {
    "第"@ + text::padded(ordinal, 2) + "讲"@
}

fn ordinal_title_text(ordinal: u64) -> (r: String)
    ensures
        r@ == ordinal_title(ordinal as nat),
{
    let mut r: String = "第".to_owned();
    text::push_padded(&mut r, ordinal, 2);
    r.append("讲");
    r
}

/// The title of the lesson that a record describes.
pub open spec fn lesson_title(
    nodes: Map<Seq<Seq<char>>, json::JsonNode>,
    index: nat,
) -> Seq<char> {
    let given = text::trim(
        json::first_text(nodes, seq!["courseName"@, "videoName"@, "title"@]),
    );
    if given.len() > 0 {
        given
    } else {
        ordinal_title(index + 1)
    }
}

/// The lesson that the record at `index` describes; none where the record has no video.
pub open spec fn lesson_of(
    nodes: Map<Seq<Seq<char>>, json::JsonNode>,
    index: nat,
) -> Option<LessonView> {
    let video_id = json::first_text(nodes, seq!["videoId"@]);
    if video_id.len() == 0 {
        None
    } else {
        Some(
            LessonView {
                video_id,
                title: lesson_title(nodes, index),
                begin_time: json::first_text(nodes, seq!["courseBeginTime"@, "beginTime"@]),
                end_time: json::first_text(nodes, seq!["courseEndTime"@, "endTime"@]),
                classroom: json::first_text(
                    nodes,
                    seq!["classroomName"@, "classroom"@, "roomName"@],
                ),
                audit_status: json::member_i64(nodes, "videAuditStatus"@),
            },
        )
    }
}

/// The lessons that a list of records describes, in order.
pub open spec fn lessons_of(
    records: Seq<Map<Seq<Seq<char>>, json::JsonNode>>,
) -> Seq<LessonView>
    decreases records.len(),
{
    if records.len() == 0 {
        Seq::empty()
    } else {
        let earlier = lessons_of(records.drop_last());
        match lesson_of(records.last(), (records.len() - 1) as nat) {
            Some(lesson) => earlier.push(lesson),
            None => earlier,
        }
    }
}

/// What the values of a sequence hold.
pub open spec fn record_nodes(records: Seq<serde_json::Value>) -> Seq<
    Map<Seq<Seq<char>>, json::JsonNode>,
> {
    records.map_values(|v: serde_json::Value| json::json_nodes(v))
}

/// What the lessons of a sequence hold.
pub open spec fn lesson_views(lessons: Seq<Lesson>) -> Seq<LessonView> {
    lessons.map_values(|l: Lesson| l@)
}

/// The lesson that one record describes.
fn lesson_from_record(value: &serde_json::Value, index: u64) -> (r: Option<Lesson>)
    requires
        index < u64::MAX,
    ensures
        match r {
            Some(lesson) => lesson_of(json::json_nodes(*value), index as nat) == Some(lesson@),
            None => lesson_of(json::json_nodes(*value), index as nat) is None,
        },
{
    let ghost nodes = json::json_nodes(*value);
    let video_id = json::json_string(value, &["videoId"]);
    assert(text::str_views(["videoId"]@) == seq!["videoId"@]);
    if video_id.as_str().is_empty() {
        return None;
    }
    let ordinal: u64 = index + 1;
    let ghost by_place = ordinal_title(ordinal as nat);
    let given = json::json_string(value, &["courseName", "videoName", "title"]);
    assert(text::str_views(["courseName", "videoName", "title"]@) == seq![
        "courseName"@,
        "videoName"@,
        "title"@,
    ]);
    let fallback = || -> (s: String)
        ensures
            s@ == by_place,
    {
        ordinal_title_text(ordinal)
    };
    let title = text::trim_text(given.as_str()).or_else_if_empty(fallback);
    let begin_time = json::json_string(value, &["courseBeginTime", "beginTime"]);
    assert(text::str_views(["courseBeginTime", "beginTime"]@) == seq![
        "courseBeginTime"@,
        "beginTime"@,
    ]);
    let end_time = json::json_string(value, &["courseEndTime", "endTime"]);
    assert(text::str_views(["courseEndTime", "endTime"]@) == seq!["courseEndTime"@, "endTime"@]);
    let classroom = json::json_string(value, &["classroomName", "classroom", "roomName"]);
    assert(text::str_views(["classroomName", "classroom", "roomName"]@) == seq![
        "classroomName"@,
        "classroom"@,
        "roomName"@,
    ]);
    let audit_status = json::json_i64(value, "videAuditStatus");
    Some(Lesson { video_id, title, begin_time, end_time, classroom, audit_status })
}

/// The lessons that a list of records describes, in order. A record without a video is skipped,
/// and a lesson without a title is named by the place of its record in the list.
pub fn lessons_from_records(records: Vec<serde_json::Value>) -> (r: Vec<Lesson>)
    ensures
        lesson_views(r@) == lessons_of(record_nodes(records@)),
{
    let ghost all = record_nodes(records@);
    let mut r: Vec<Lesson> = Vec::new();
    let mut i: usize = 0;
    assert(lesson_views(r@) == lessons_of(all.take(0)));
    while i < records.len()
        invariant
            i <= records@.len(),
            all == record_nodes(records@),
            lesson_views(r@) == lessons_of(all.take(i as int)),
        decreases records@.len() - i,
    {
        let ghost before = r@;
        assert(all.take(i + 1).drop_last() == all.take(i as int));
        if let Some(lesson) = lesson_from_record(&records[i], i as u64) {
            r.push(lesson);
            assert(lesson_views(r@) == lesson_views(before).push(lesson@));
        }
        i = i + 1;
    }
    assert(all.take(records@.len() as int) == all);
    r
}

/// The lessons whose recordings are open to students, in order.
pub open spec fn open_views(lessons: Seq<LessonView>) -> Seq<LessonView> {
    lessons.filter(|l: LessonView| l.audit_status == OPEN_AUDIT_STATUS)
}

proof fn lemma_one_more(lessons: Seq<LessonView>, i: int)
    requires
        0 <= i < lessons.len(),
    ensures
        open_views(lessons.take(i + 1)) == if lessons[i].audit_status == OPEN_AUDIT_STATUS {
            open_views(lessons.take(i)).push(lessons[i])
        } else {
            open_views(lessons.take(i))
        },
{
    reveal_with_fuel(Seq::filter, 1);
    assert(lessons.take(i + 1).drop_last() == lessons.take(i));
}

/// The lessons whose recordings are open to students, in order.
pub fn open_lessons(lessons: Vec<Lesson>) -> (r: Vec<Lesson>)
    ensures
        lesson_views(r@) == open_views(lesson_views(lessons@)),
{
    let ghost all = lessons@;
    let ghost views = lesson_views(all);
    let mut r: Vec<Lesson> = Vec::new();
    proof {
        reveal_with_fuel(Seq::filter, 1);
        assert(views.take(0) == Seq::<LessonView>::empty());
        assert(lesson_views(r@) == open_views(views.take(0)));
    }
    for lesson in it: lessons.into_iter()
        invariant
            it.seq() == all,
            views == lesson_views(all),
            lesson_views(r@) == open_views(views.take(it.index())),
    {
        let ghost i = it.index();
        let ghost before = r@;
        proof {
            lemma_one_more(views, i);
        }
        if lesson.audit_status == OPEN_AUDIT_STATUS {
            r.push(lesson);
            assert(lesson_views(r@) == lesson_views(before).push(lesson@));
        }
    }
    assert(views.take(all.len() as int) == views);
    r
}

// ---------------------------------------------------------------------------------------------
// Laws
// ---------------------------------------------------------------------------------------------

/// The lessons of a list start with the lessons of its first records: a lesson keeps its name and
/// its place, whatever follows it.
pub proof fn law_earlier_lessons_stay(
    records: Seq<Map<Seq<Seq<char>>, json::JsonNode>>,
    k: int,
)
    requires
        0 <= k <= records.len(),
    ensures
        lessons_of(records.take(k)).is_prefix_of(lessons_of(records)),
    decreases records.len(),
{
    if k == records.len() {
        assert(records.take(k) == records);
    } else {
        law_earlier_lessons_stay(records.drop_last(), k);
        assert(records.drop_last().take(k) == records.take(k));
        let a = lessons_of(records.take(k));
        let b = lessons_of(records.drop_last());
        let c = lessons_of(records);
        assert(c.take(a.len() as int) == b.take(a.len() as int));
    }
}

/// Every lesson has a video and a title, and there are at most as many lessons as records.
pub proof fn law_lessons_have_videos_and_titles(records: Seq<Map<Seq<Seq<char>>, json::JsonNode>>)
    ensures
        lessons_of(records).len() <= records.len(),
        forall|i: int|
            0 <= i < lessons_of(records).len() ==> {
                let lesson = #[trigger] lessons_of(records)[i];
                lesson.video_id.len() > 0 && lesson.title.len() > 0
            },
    decreases records.len(),
{
    if records.len() > 0 {
        law_lessons_have_videos_and_titles(records.drop_last());
        reveal_strlit("第");
        assert("第"@.len() == 1);
        let earlier = lessons_of(records.drop_last());
        let all = lessons_of(records);
        assert forall|i: int| 0 <= i < all.len() implies {
            let lesson = #[trigger] all[i];
            lesson.video_id.len() > 0 && lesson.title.len() > 0
        } by {
            if i < earlier.len() {
                assert(all[i] == earlier[i]);
            }
        }
    }
}

/// Only lessons whose recordings are open to students are shown.
pub proof fn law_shown_lessons_are_open(lessons: Seq<LessonView>)
    ensures
        forall|i: int|
            0 <= i < open_views(lessons).len() ==> (#[trigger] open_views(lessons)[i]).audit_status
                == OPEN_AUDIT_STATUS,
        forall|i: int|
            0 <= i < lessons.len() && (#[trigger] lessons[i]).audit_status == OPEN_AUDIT_STATUS
                ==> open_views(lessons).contains(lessons[i]),
{
    let shown = |l: LessonView| l.audit_status == OPEN_AUDIT_STATUS;
    broadcast use vstd::seq_lib::group_filter_ensures;

    assert forall|i: int| 0 <= i < open_views(lessons).len() implies (#[trigger] open_views(
        lessons,
    )[i]).audit_status == OPEN_AUDIT_STATUS by {
        assert(shown(lessons.filter(shown)[i]));
    }
    assert forall|i: int|
        0 <= i < lessons.len() && (#[trigger] lessons[i]).audit_status
            == OPEN_AUDIT_STATUS implies open_views(lessons).contains(lessons[i]) by {
        assert(shown(lessons[i]));
    }
}

} // verus!
