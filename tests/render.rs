use bootdev_readme::config::Config;
use bootdev_readme::render::{converter_options, prettified_text, ConverterRun, RenderError};

#[test]
fn converter_reflows_markdown_to_eighty_columns() {
    assert_eq!(converter_options(), vec!["-t".to_string(), "markdown".to_string(), "--columns=80".to_string()]);
}

#[test]
fn converter_output_is_decoded() {
    let run = ConverterRun::Exited { success: true, stdout: "héllo\n".as_bytes().to_vec() };
    assert_eq!(prettified_text(run), Ok("héllo\n".to_string()));
}

#[test]
fn converter_failures() {
    assert_eq!(prettified_text(ConverterRun::NotStarted), Err(RenderError::Invoke));
    let failed = ConverterRun::Exited { success: false, stdout: b"text".to_vec() };
    assert_eq!(prettified_text(failed), Err(RenderError::Invoke));
    let binary = ConverterRun::Exited { success: true, stdout: vec![0x66, 0xff, 0x66] };
    assert_eq!(prettified_text(binary), Err(RenderError::NotText));
}

#[test]
fn endpoint_urls() {
    let c = Config::platform();
    assert_eq!(c.converter, "pandoc");
    assert_eq!(c.course_overview_url(), "https://api.boot.dev/v1/static/courses/overview");
    assert_eq!(c.course_lookup_url("learn-go"), "https://api.boot.dev/v1/static/courses/slug/learn-go");
    assert_eq!(c.course_url("C-1"), "https://api.boot.dev/v1/courses/C-1");
    assert_eq!(c.lesson_url("L-1"), "https://api.boot.dev/v1/static/lessons/L-1");
}
