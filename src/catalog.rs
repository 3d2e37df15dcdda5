//! Navigation of the course documents by 1-based chapter and lesson numbers.

use vstd::prelude::*;
use crate::error::{Fault, Field, LookupError, list_outcome, text_outcome, texts};
use crate::json::{Json, items_of, is_object, member_of, text_of};

verus! {

/// The title of a chapter or lesson object.
pub open spec fn title_of(v: Json) -> Option<Seq<char>> {
    text_of(member_of(v, "Title"@))
}

/// The titles of `items`, in order, or the fault `missing` when one of them
/// has none.
pub open spec fn titles_or(items: Seq<Json>, missing: Field) -> Result<Seq<Seq<char>>, Fault> {
    if forall|i: int| 0 <= i < items.len() ==> (#[trigger] title_of(items[i])) is Some {
        Ok(items.map_values(|v: Json| title_of(v).unwrap()))
    } else {
        Err(Fault::Missing(missing))
    }
}

/// The chapters of a course document.
pub open spec fn chapters_of(course: Json) -> Option<Seq<Json>> {
    items_of(member_of(course, "Chapters"@))
}

/// The lessons of a chapter object.
pub open spec fn lessons_of(chapter: Json) -> Option<Seq<Json>> {
    items_of(member_of(chapter, "Lessons"@))
}

/// The identifier that a slug lookup document gives for its course.
pub open spec fn course_id_of(lookup: Json) -> Result<Seq<char>, Fault> {
    let course = member_of(lookup, "Course"@);
    if !is_object(course) {
        Err(Fault::Missing(Field::Course))
    } else {
        match text_of(member_of(course.unwrap(), "UUID"@)) {
            Some(id) => Ok(id),
            None => Err(Fault::Missing(Field::CourseId)),
        }
    }
}

/// The chapter numbered `chapter` (from 1) of the course document, or why
/// there is none.
pub open spec fn chapter_at(slug: Seq<char>, chapter: u8, course: Json) -> Result<Json, Fault> {
    match chapters_of(course) {
        None => Err(Fault::Missing(Field::Chapters)),
        Some(chapters) => if chapters.len() < chapter {
            Err(Fault::NoChapter { chapter, course: slug })
        } else {
            Ok(chapters[chapter - 1])
        },
    }
}

/// The titles of the chapters of a course document, in order.
pub open spec fn chapter_titles_of(course: Json) -> Result<Seq<Seq<char>>, Fault> {
    match chapters_of(course) {
        None => Err(Fault::Missing(Field::Chapters)),
        Some(chapters) => titles_or(chapters, Field::ChapterTitle),
    }
}

/// The titles of the lessons of chapter `chapter` (from 1) of a course
/// document, in order.
pub open spec fn lesson_titles_of(slug: Seq<char>, chapter: u8, course: Json) -> Result<Seq<Seq<char>>, Fault> {
    match chapter_at(slug, chapter, course) {
        Err(f) => Err(f),
        Ok(ch) => match lessons_of(ch) {
            None => Err(Fault::Missing(Field::Lessons)),
            Some(lessons) => titles_or(lessons, Field::LessonTitle),
        },
    }
}

/// The identifier of lesson `lesson` of chapter `chapter` (both from 1) of
/// a course document.
pub open spec fn lesson_id_of(slug: Seq<char>, chapter: u8, lesson: u8, course: Json) -> Result<Seq<char>, Fault> {
    match chapter_at(slug, chapter, course) {
        Err(f) => Err(f),
        Ok(ch) => match lessons_of(ch) {
            None => Err(Fault::Missing(Field::Lessons)),
            Some(lessons) => if lessons.len() < lesson {
                Err(Fault::NoLesson { lesson, chapter, course: slug })
            } else {
                match text_of(member_of(lessons[lesson - 1], "UUID"@)) {
                    Some(id) => Ok(id),
                    None => Err(Fault::Missing(Field::LessonId)),
                }
            },
        },
    }
}

/// The titles of `items`, in order; fails with `missing` at the first item
/// without one.
fn collect_titles(items: &Vec<Json>, missing: Field) -> (r: Result<Vec<String>, LookupError>)
    ensures
        list_outcome(r) == titles_or(items@, missing),
{
    let mut out: Vec<String> = Vec::new();
    let mut i: usize = 0;
    while i < items.len()
        invariant
            i <= items@.len(),
            forall|j: int| 0 <= j < i ==> (#[trigger] title_of(items@[j])) is Some,
            texts(out@) =~= items@.subrange(0, i as int).map_values(|v: Json| title_of(v).unwrap()),
        decreases items@.len() - i,
    {
        let title = match items[i].get("Title") {
            Some(t) => t.as_text(),
            None => None,
        };
        match title {
            Some(s) => {
                assert(title_of(items@[i as int]) == Some(s@));
                let ghost before = out@;
                out.push(s.clone());
                assert(out@ == before.push(*s));
                assert(texts(out@) =~= texts(before).push(s@));
            },
            None => {
                assert(title_of(items@[i as int]) is None);
                return Err(LookupError::Missing(missing));
            },
        }
        i = i + 1;
        assert(texts(out@) =~= items@.subrange(0, i as int).map_values(|v: Json| title_of(v).unwrap()));
    }
    assert(items@.subrange(0, i as int) =~= items@);
    Ok(out)
}

/// The identifier of the course in a document from the slug lookup
/// endpoint.
pub fn get_course_id(lookup: &Json) -> (r: Result<String, LookupError>)
    ensures
        text_outcome(r) == course_id_of(*lookup),
{
    let course = match lookup.get("Course") {
        Some(c) => c,
        None => return Err(LookupError::Missing(Field::Course)),
    };
    if !matches!(course, Json::Object(_)) {
        return Err(LookupError::Missing(Field::Course));
    }
    match course.get("UUID") {
        Some(v) => match v.as_text() {
            Some(id) => Ok(id.clone()),
            None => Err(LookupError::Missing(Field::CourseId)),
        },
        None => Err(LookupError::Missing(Field::CourseId)),
    }
}

/// The chapter numbered `ch_no` (from 1) of a course document.
fn chapter_at_number<'a>(course_slug: &str, ch_no: u8, course: &'a Json) -> (r: Result<&'a Json, LookupError>)
    requires
        ch_no >= 1,
    ensures
        match r {
            Ok(ch) => chapter_at(course_slug@, ch_no, *course) == Ok::<Json, Fault>(*ch),
            Err(e) => chapter_at(course_slug@, ch_no, *course) == Err::<Json, Fault>(e@),
        },
{
    let chapters = match course.get("Chapters") {
        Some(c) => match c.as_items() {
            Some(items) => items,
            None => return Err(LookupError::Missing(Field::Chapters)),
        },
        None => return Err(LookupError::Missing(Field::Chapters)),
    };
    if chapters.len() < ch_no as usize {
        return Err(LookupError::NoChapter { chapter: ch_no, course: course_slug.to_owned() });
    }
    Ok(&chapters[(ch_no - 1) as usize])
}

/// The lessons of a chapter object.
fn lessons_in(chapter: &Json) -> (r: Result<&Vec<Json>, LookupError>)
    ensures
        match r {
            Ok(items) => lessons_of(*chapter) == Some(items@),
            Err(e) => lessons_of(*chapter) is None && e == LookupError::Missing(Field::Lessons),
        },
{
    match chapter.get("Lessons") {
        Some(c) => match c.as_items() {
            Some(items) => Ok(items),
            None => Err(LookupError::Missing(Field::Lessons)),
        },
        None => Err(LookupError::Missing(Field::Lessons)),
    }
}

/// The titles of the chapters of a course document, in order.
pub fn get_chapters(course: &Json) -> (r: Result<Vec<String>, LookupError>)
    ensures
        list_outcome(r) == chapter_titles_of(*course),
{
    let chapters = match course.get("Chapters") {
        Some(c) => match c.as_items() {
            Some(items) => items,
            None => return Err(LookupError::Missing(Field::Chapters)),
        },
        None => return Err(LookupError::Missing(Field::Chapters)),
    };
    collect_titles(chapters, Field::ChapterTitle)
}

/// The titles of the lessons of chapter `ch_no` (from 1) of a course
/// document, in order.
pub fn get_lessons(course_slug: &str, ch_no: u8, course: &Json) -> (r: Result<Vec<String>, LookupError>)
    requires
        ch_no >= 1,
    ensures
        list_outcome(r) == lesson_titles_of(course_slug@, ch_no, *course),
{
    let chapter = match chapter_at_number(course_slug, ch_no, course) {
        Ok(ch) => ch,
        Err(e) => return Err(e),
    };
    let lessons = match lessons_in(chapter) {
        Ok(items) => items,
        Err(e) => return Err(e),
    };
    collect_titles(lessons, Field::LessonTitle)
}

/// The identifier of lesson `lesson_no` of chapter `ch_no` (both from 1) of
/// a course document.
pub fn get_lesson_id(course_slug: &str, ch_no: u8, lesson_no: u8, course: &Json) -> (r: Result<String, LookupError>)
    requires
        ch_no >= 1,
        lesson_no >= 1,
    ensures
        text_outcome(r) == lesson_id_of(course_slug@, ch_no, lesson_no, *course),
{
    let chapter = match chapter_at_number(course_slug, ch_no, course) {
        Ok(ch) => ch,
        Err(e) => return Err(e),
    };
    let lessons = match lessons_in(chapter) {
        Ok(items) => items,
        Err(e) => return Err(e),
    };
    if lessons.len() < lesson_no as usize {
        return Err(
            LookupError::NoLesson { lesson: lesson_no, chapter: ch_no, course: course_slug.to_owned() },
        );
    }
    match lessons[(lesson_no - 1) as usize].get("UUID") {
        Some(v) => match v.as_text() {
            Some(id) => Ok(id.clone()),
            None => Err(LookupError::Missing(Field::LessonId)),
        },
        None => Err(LookupError::Missing(Field::LessonId)),
    }
}

/// Within bounds, the lesson identifier is the `UUID` of the lesson at
/// position `lesson - 1` of the chapter at position `chapter - 1`, in
/// document order.
pub proof fn lemma_lesson_id_within_bounds(
    slug: Seq<char>,
    chapter: u8,
    lesson: u8,
    course: Json,
    chapters: Seq<Json>,
    lessons: Seq<Json>,
)
    requires
        1 <= chapter,
        1 <= lesson,
        chapters_of(course) == Some(chapters),
        chapter <= chapters.len(),
        lessons_of(chapters[chapter - 1]) == Some(lessons),
        lesson <= lessons.len(),
    ensures
        lesson_id_of(slug, chapter, lesson, course) == match text_of(member_of(lessons[lesson - 1], "UUID"@)) {
            Some(id) => Ok(id),
            None => Err(Fault::Missing(Field::LessonId)),
        },
{
}

/// A chapter number past the number of chapters, and then a lesson number
/// past the number of lessons of the chapter, each fail with an error that
/// names the numbers and the course; neither is clamped.
pub proof fn lemma_lesson_id_out_of_bounds(slug: Seq<char>, chapter: u8, lesson: u8, course: Json)
    requires
        1 <= chapter,
        1 <= lesson,
    ensures
        chapters_of(course) matches Some(chapters) && chapters.len() < chapter ==> lesson_id_of(
            slug,
            chapter,
            lesson,
            course,
        ) == Err::<Seq<char>, Fault>(Fault::NoChapter { chapter, course: slug }),
        (chapters_of(course) matches Some(chapters) && chapter <= chapters.len() && (lessons_of(
            chapters[chapter - 1],
        ) matches Some(lessons) && lessons.len() < lesson)) ==> lesson_id_of(slug, chapter, lesson, course)
            == Err::<Seq<char>, Fault>(Fault::NoLesson { lesson, chapter, course: slug }),
{
}

} // verus!
