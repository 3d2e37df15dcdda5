//! Why a lookup in the platform's documents failed.

use vstd::prelude::*;

verus! {

/// A part of a response document that a lookup needs.
#[derive(PartialEq, Eq, Structural, Clone, Copy, Debug)]
pub enum Field {
    /// The array of course summaries of the overview document.
    CourseList,
    /// The slug of a course summary.
    CourseSlug,
    /// The title of a course summary.
    CourseTitle,
    /// The course object of a slug lookup.
    Course,
    /// The identifier of a course.
    CourseId,
    /// The chapter array of a course.
    Chapters,
    /// The title of a chapter.
    ChapterTitle,
    /// The lesson array of a chapter.
    Lessons,
    /// The title of a lesson.
    LessonTitle,
    /// The identifier of a lesson.
    LessonId,
    /// The lesson object of a lesson lookup.
    Lesson,
    /// The type-specific data object of a lesson.
    LessonData,
    /// The readme text of a lesson's data.
    Readme,
}

/// A failed lookup.
#[derive(Debug, PartialEq, Eq)]
pub enum LookupError {
    /// A required part of a response is absent or has the wrong type.
    Missing(Field),
    /// The course has fewer chapters than the number asked for.
    NoChapter { chapter: u8, course: String },
    /// The chapter has fewer lessons than the number asked for.
    NoLesson { lesson: u8, chapter: u8, course: String },
}

/// [`LookupError`] with its strings seen as character sequences.
pub enum Fault {
    Missing(Field),
    NoChapter { chapter: u8, course: Seq<char> },
    NoLesson { lesson: u8, chapter: u8, course: Seq<char> },
}

impl View for LookupError {
    type V = Fault;

    open spec fn view(&self) -> Fault {
        match self {
            LookupError::Missing(f) => Fault::Missing(*f),
            LookupError::NoChapter { chapter, course } => Fault::NoChapter {
                chapter: *chapter,
                course: course@,
            },
            LookupError::NoLesson { lesson, chapter, course } => Fault::NoLesson {
                lesson: *lesson,
                chapter: *chapter,
                course: course@,
            },
        }
    }
}

/// What a lookup that yields one string stands for.
pub open spec fn text_outcome(r: Result<String, LookupError>) -> Result<Seq<char>, Fault> {
    match r {
        Ok(s) => Ok(s@),
        Err(e) => Err(e@),
    }
}

/// The character sequences of a vector of strings.
pub open spec fn texts(v: Seq<String>) -> Seq<Seq<char>> {
    v.map_values(|s: String| s@)
}

/// What a lookup that yields a list of strings stands for.
pub open spec fn list_outcome(r: Result<Vec<String>, LookupError>) -> Result<Seq<Seq<char>>, Fault> {
    match r {
        Ok(v) => Ok(texts(v@)),
        Err(e) => Err(e@),
    }
}

} // verus!
