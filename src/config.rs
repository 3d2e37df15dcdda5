//! Where the platform's API lives and which converter reflows text.

use vstd::prelude::*;

verus! {

/// The process-wide settings: the API's base URL (without a trailing `/`)
/// and the program that reflows readmes.
pub struct Config {
    pub base_url: String,
    pub converter: String,
}

impl Config {
    /// The public platform API and `pandoc`.
    pub fn platform() -> (r: Config)
        ensures
            r.base_url@ == "https://api.boot.dev"@,
            r.converter@ == "pandoc"@,
    {
        Config { base_url: String::from_str("https://api.boot.dev"), converter: String::from_str("pandoc") }
    }

    /// `base_url` followed by `path`.
    fn endpoint(&self, path: &str) -> (r: String)
        ensures
            r@ == self.base_url@ + path@,
    {
        let mut r = self.base_url.clone();
        r.append(path);
        r
    }

    /// The endpoint that lists a summary of every course.
    pub fn course_overview_url(&self) -> (r: String)
        ensures
            r@ == self.base_url@ + "/v1/static/courses/overview"@,
    {
        self.endpoint("/v1/static/courses/overview")
    }

    /// The endpoint that looks a course up by its slug.
    pub fn course_lookup_url(&self, slug: &str) -> (r: String)
        ensures
            r@ == self.base_url@ + "/v1/static/courses/slug/"@ + slug@,
    {
        let mut r = self.endpoint("/v1/static/courses/slug/");
        r.append(slug);
        r
    }

    /// The endpoint that serves a whole course, chapters and lessons
    /// included, by its identifier.
    pub fn course_url(&self, course_id: &str) -> (r: String)
        ensures
            r@ == self.base_url@ + "/v1/courses/"@ + course_id@,
    {
        let mut r = self.endpoint("/v1/courses/");
        r.append(course_id);
        r
    }

    /// The endpoint that serves a lesson by its identifier.
    pub fn lesson_url(&self, lesson_id: &str) -> (r: String)
        ensures
            r@ == self.base_url@ + "/v1/static/lessons/"@ + lesson_id@,
    {
        let mut r = self.endpoint("/v1/static/lessons/");
        r.append(lesson_id);
        r
    }
}

} // verus!
