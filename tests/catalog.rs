use bootdev_readme::catalog::{get_chapters, get_course_id, get_lesson_id, get_lessons};
use bootdev_readme::error::{Field, LookupError};
use bootdev_readme::json::Json;

fn text(s: &str) -> Json {
    Json::Str(s.to_string())
}

fn object(entries: Vec<(&str, Json)>) -> Json {
    Json::Object(entries.into_iter().map(|(k, v)| (k.to_string(), v)).collect())
}

fn lesson(id: &str) -> Json {
    object(vec![("UUID", text(id)), ("Title", text(&format!("title {}", id)))])
}

fn chapter(title: &str, lessons: Vec<Json>) -> Json {
    object(vec![("Title", text(title)), ("Lessons", Json::Array(lessons))])
}

fn course(chapters: Vec<Json>) -> Json {
    object(vec![("Chapters", Json::Array(chapters))])
}

fn sample_course() -> Json {
    course(vec![
        chapter("Intro", vec![lesson("L1"), lesson("L2")]),
        chapter("Loops", vec![lesson("L3"), lesson("L4"), lesson("L5")]),
    ])
}

#[test]
fn lesson_id_past_last_lesson_names_lesson_chapter_and_course() {
    let doc = course(vec![object(vec![("Lessons", Json::Array(vec![object(vec![("UUID", text("L1"))])]))])]);
    let r = get_lesson_id("learn-go", 1, 2, &doc);
    assert_eq!(
        r,
        Err(LookupError::NoLesson { lesson: 2, chapter: 1, course: "learn-go".to_string() })
    );
}

#[test]
fn lesson_id_within_bounds_picks_the_positions() {
    let doc = sample_course();
    assert_eq!(get_lesson_id("c", 1, 1, &doc), Ok("L1".to_string()));
    assert_eq!(get_lesson_id("c", 1, 2, &doc), Ok("L2".to_string()));
    assert_eq!(get_lesson_id("c", 2, 1, &doc), Ok("L3".to_string()));
    assert_eq!(get_lesson_id("c", 2, 3, &doc), Ok("L5".to_string()));
}

#[test]
fn lesson_id_chapter_equal_to_count_succeeds_one_more_fails() {
    let doc = sample_course();
    assert_eq!(get_lesson_id("c", 2, 1, &doc), Ok("L3".to_string()));
    assert_eq!(
        get_lesson_id("c", 3, 1, &doc),
        Err(LookupError::NoChapter { chapter: 3, course: "c".to_string() })
    );
}

#[test]
fn lesson_id_lesson_past_count_fails() {
    let doc = sample_course();
    assert_eq!(
        get_lesson_id("c", 2, 4, &doc),
        Err(LookupError::NoLesson { lesson: 4, chapter: 2, course: "c".to_string() })
    );
}

#[test]
fn lesson_id_missing_parts() {
    assert_eq!(get_lesson_id("c", 1, 1, &object(vec![])), Err(LookupError::Missing(Field::Chapters)));
    assert_eq!(
        get_lesson_id("c", 1, 1, &object(vec![("Chapters", text("x"))])),
        Err(LookupError::Missing(Field::Chapters))
    );
    let no_lessons = course(vec![object(vec![("Title", text("Intro"))])]);
    assert_eq!(get_lesson_id("c", 1, 1, &no_lessons), Err(LookupError::Missing(Field::Lessons)));
    let no_id = course(vec![chapter("Intro", vec![object(vec![("UUID", Json::Null)])])]);
    assert_eq!(get_lesson_id("c", 1, 1, &no_id), Err(LookupError::Missing(Field::LessonId)));
}

#[test]
fn course_id_from_lookup() {
    let doc = object(vec![("Course", object(vec![("Title", text("Go")), ("UUID", text("C-1"))]))]);
    assert_eq!(get_course_id(&doc), Ok("C-1".to_string()));
}

#[test]
fn course_id_failures() {
    assert_eq!(get_course_id(&object(vec![])), Err(LookupError::Missing(Field::Course)));
    assert_eq!(
        get_course_id(&object(vec![("Course", text("C-1"))])),
        Err(LookupError::Missing(Field::Course))
    );
    assert_eq!(
        get_course_id(&object(vec![("Course", object(vec![("UUID", Json::Bool(true))]))])),
        Err(LookupError::Missing(Field::CourseId))
    );
    assert_eq!(get_course_id(&Json::Array(vec![])), Err(LookupError::Missing(Field::Course)));
}

#[test]
fn chapter_titles_in_order() {
    assert_eq!(get_chapters(&sample_course()), Ok(vec!["Intro".to_string(), "Loops".to_string()]));
    assert_eq!(get_chapters(&course(vec![])), Ok(vec![]));
}

#[test]
fn chapter_titles_failures() {
    assert_eq!(get_chapters(&object(vec![])), Err(LookupError::Missing(Field::Chapters)));
    let untitled = course(vec![chapter("Intro", vec![]), object(vec![("Lessons", Json::Array(vec![]))])]);
    assert_eq!(get_chapters(&untitled), Err(LookupError::Missing(Field::ChapterTitle)));
}

#[test]
fn lesson_titles_of_a_chapter() {
    let doc = sample_course();
    assert_eq!(
        get_lessons("c", 2, &doc),
        Ok(vec!["title L3".to_string(), "title L4".to_string(), "title L5".to_string()])
    );
    assert_eq!(
        get_lessons("c", 3, &doc),
        Err(LookupError::NoChapter { chapter: 3, course: "c".to_string() })
    );
    let untitled = course(vec![chapter("Intro", vec![object(vec![("UUID", text("L1"))])])]);
    assert_eq!(get_lessons("c", 1, &untitled), Err(LookupError::Missing(Field::LessonTitle)));
}

#[test]
fn first_of_duplicate_keys_is_used() {
    let doc = object(vec![("Course", object(vec![("UUID", text("first")), ("UUID", text("second"))]))]);
    assert_eq!(get_course_id(&doc), Ok("first".to_string()));
}
