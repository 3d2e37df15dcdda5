use bootdev_readme::error::{Field, LookupError};
use bootdev_readme::json::Json;
use bootdev_readme::listing::{get_course_slugs, sort_by_slug};

fn summary(slug: &str, title: &str) -> Json {
    Json::Object(vec![
        ("Slug".to_string(), Json::Str(slug.to_string())),
        ("Title".to_string(), Json::Str(title.to_string())),
        ("Order".to_string(), Json::Number("1".to_string())),
    ])
}

fn pair(a: &str, b: &str) -> (String, String) {
    (a.to_string(), b.to_string())
}

#[test]
fn list_courses_sorted_by_slug() {
    let overview = Json::Array(vec![summary("b", "B"), summary("a", "A")]);
    assert_eq!(get_course_slugs(&overview), Ok(vec![pair("a", "A"), pair("b", "B")]));
}

#[test]
fn list_courses_orders_by_code_point() {
    let overview = Json::Array(vec![
        summary("b", "1"),
        summary("abc", "2"),
        summary("ab", "3"),
        summary("Z", "4"),
        summary("é", "5"),
    ]);
    assert_eq!(
        get_course_slugs(&overview),
        Ok(vec![pair("Z", "4"), pair("ab", "3"), pair("abc", "2"), pair("b", "1"), pair("é", "5")])
    );
}

#[test]
fn list_courses_ignores_input_order() {
    let a = vec![pair("go", "Go"), pair("py", "Python"), pair("c", "C"), pair("js", "JS")];
    let b = vec![pair("js", "JS"), pair("c", "C"), pair("go", "Go"), pair("py", "Python")];
    let sa = sort_by_slug(a);
    assert_eq!(sa, sort_by_slug(b));
    assert_eq!(sa, vec![pair("c", "C"), pair("go", "Go"), pair("js", "JS"), pair("py", "Python")]);
}

#[test]
fn list_courses_empty() {
    assert_eq!(get_course_slugs(&Json::Array(vec![])), Ok(vec![]));
    assert_eq!(sort_by_slug(vec![]), vec![]);
}

#[test]
fn list_courses_keeps_equal_slugs() {
    let sorted = sort_by_slug(vec![pair("b", "x"), pair("a", "y"), pair("b", "x")]);
    assert_eq!(sorted, vec![pair("a", "y"), pair("b", "x"), pair("b", "x")]);
}

#[test]
fn list_courses_failures() {
    assert_eq!(get_course_slugs(&Json::Null), Err(LookupError::Missing(Field::CourseList)));
    let no_slug = Json::Array(vec![
        summary("a", "A"),
        Json::Object(vec![("Title".to_string(), Json::Str("T".to_string()))]),
    ]);
    assert_eq!(get_course_slugs(&no_slug), Err(LookupError::Missing(Field::CourseSlug)));
    let no_title = Json::Array(vec![Json::Object(vec![("Slug".to_string(), Json::Str("s".to_string()))])]);
    assert_eq!(get_course_slugs(&no_title), Err(LookupError::Missing(Field::CourseTitle)));
    let not_object = Json::Array(vec![Json::Str("a".to_string())]);
    assert_eq!(get_course_slugs(&not_object), Err(LookupError::Missing(Field::CourseSlug)));
}
