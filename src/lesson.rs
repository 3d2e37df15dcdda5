//! Extraction of a lesson's readme from the lesson lookup document.

use vstd::prelude::*;
use crate::error::{Fault, Field, LookupError, text_outcome};
use crate::json::{Json, is_object, member_of, prefixed_entry_from, prefixed_member_of, text_of};

verus! {

/// The readme text of a document from the lesson lookup endpoint: the
/// `Readme` string of the first member of its `Lesson` object whose key
/// starts with `LessonData`.
pub open spec fn readme_of(page: Json) -> Result<Seq<char>, Fault> {
    let lesson = member_of(page, "Lesson"@);
    if !is_object(lesson) {
        Err(Fault::Missing(Field::Lesson))
    } else {
        match prefixed_member_of(lesson.unwrap(), "LessonData"@) {
            None => Err(Fault::Missing(Field::LessonData)),
            Some(data) => match text_of(member_of(data, "Readme"@)) {
                Some(readme) => Ok(readme),
                None => Err(Fault::Missing(Field::Readme)),
            },
        }
    }
}

/// The readme text of a document from the lesson lookup endpoint.
pub fn get_readme_by_id(page: &Json) -> (r: Result<String, LookupError>)
    ensures
        text_outcome(r) == readme_of(*page),
{
    let lesson = match page.get("Lesson") {
        Some(l) => l,
        None => return Err(LookupError::Missing(Field::Lesson)),
    };
    if !matches!(lesson, Json::Object(_)) {
        return Err(LookupError::Missing(Field::Lesson));
    }
    let data = match lesson.get_prefixed("LessonData") {
        Some(d) => d,
        None => return Err(LookupError::Missing(Field::LessonData)),
    };
    match data.get("Readme") {
        Some(v) => match v.as_text() {
            Some(readme) => Ok(readme.clone()),
            None => Err(LookupError::Missing(Field::Readme)),
        },
        None => Err(LookupError::Missing(Field::Readme)),
    }
}

proof fn lemma_sole_prefixed_entry(entries: Seq<(String, Json)>, prefix: Seq<char>, k: int, i: int)
    requires
        0 <= i <= k < entries.len(),
        forall|j: int| 0 <= j < entries.len() ==> (#[trigger] prefix.is_prefix_of(entries[j].0@) <==> j == k),
    ensures
        prefixed_entry_from(entries, prefix, i) == Some(entries[k].1),
    decreases k - i,
{
    if i < k {
        assert(!prefix.is_prefix_of(entries[i].0@));
        lemma_sole_prefixed_entry(entries, prefix, k, i + 1);
    }
}

proof fn lemma_no_prefixed_entry(entries: Seq<(String, Json)>, prefix: Seq<char>, i: int)
    requires
        0 <= i <= entries.len(),
        forall|j: int| 0 <= j < entries.len() ==> !(#[trigger] prefix.is_prefix_of(entries[j].0@)),
    ensures
        prefixed_entry_from(entries, prefix, i) is None,
    decreases entries.len() - i,
{
    if i < entries.len() {
        lemma_no_prefixed_entry(entries, prefix, i + 1);
    }
}

/// When exactly one key of the lesson object starts with `LessonData`,
/// whatever follows the prefix, the readme is read from that member's
/// object.
pub proof fn lemma_readme_from_sole_lesson_data(page: Json, entries: Seq<(String, Json)>, k: int)
    requires
        member_of(page, "Lesson"@) matches Some(Json::Object(es)) && es@ == entries,
        0 <= k < entries.len(),
        forall|j: int|
            0 <= j < entries.len() ==> (#[trigger] "LessonData"@.is_prefix_of(entries[j].0@) <==> j == k),
    ensures
        readme_of(page) == match text_of(member_of(entries[k].1, "Readme"@)) {
            Some(readme) => Ok(readme),
            None => Err(Fault::Missing(Field::Readme)),
        },
{
    lemma_sole_prefixed_entry(entries, "LessonData"@, k, 0);
}

/// Extraction fails, and says why, when the document has no `Lesson`
/// object, or when no key of that object starts with `LessonData`.
pub proof fn lemma_readme_fails_without_lesson_data(page: Json)
    ensures
        !is_object(member_of(page, "Lesson"@)) ==> readme_of(page) == Err::<Seq<char>, Fault>(
            Fault::Missing(Field::Lesson),
        ),
        (member_of(page, "Lesson"@) matches Some(Json::Object(es)) && (forall|j: int|
            0 <= j < es@.len() ==> !(#[trigger] "LessonData"@.is_prefix_of(es@[j].0@))))
            ==> readme_of(page) == Err::<Seq<char>, Fault>(Fault::Missing(Field::LessonData)),
{
    if let Some(Json::Object(es)) = member_of(page, "Lesson"@) {
        if forall|j: int| 0 <= j < es@.len() ==> !(#[trigger] "LessonData"@.is_prefix_of(es@[j].0@)) {
            lemma_no_prefixed_entry(es@, "LessonData"@, 0);
        }
    }
}

} // verus!
