//! The reflow step: the options handed to the external document converter
//! and the decision on what it produced.

use vstd::prelude::*;
use vstd::utf8::{decode_utf8, valid_utf8};

verus! {

/// How a run of the external converter ended.
pub enum ConverterRun {
    /// The process could not be started.
    NotStarted,
    /// The process ran to its end.
    Exited { success: bool, stdout: Vec<u8> },
}

/// Why the reflow step failed.
#[derive(PartialEq, Eq, Structural, Clone, Copy, Debug)]
pub enum RenderError {
    /// The converter could not be started, or reported failure.
    Invoke,
    /// What the converter wrote is not UTF-8 text.
    NotText,
}

/// The options that follow the input path on the converter's command line:
/// markdown output, reflowed to 80 columns.
pub fn converter_options() -> (r: Vec<String>)
    ensures
        r@.map_values(|s: String| s@) == seq!["-t"@, "markdown"@, "--columns=80"@],
{
    let mut r: Vec<String> = Vec::new();
    r.push(String::from_str("-t"));
    r.push(String::from_str("markdown"));
    r.push(String::from_str("--columns=80"));
    assert(r@.map_values(|s: String| s@) =~= seq!["-t"@, "markdown"@, "--columns=80"@]);
    r
}

/// Relies on `String::from_utf8`: it accepts exactly the well-formed UTF-8
/// byte sequences, and the string it returns holds the characters they
/// encode.
#[verifier::external_body]
fn decode_text(bytes: Vec<u8>) -> (r: Option<String>)
    ensures
        match r {
            Some(s) => valid_utf8(bytes@) && s@ == decode_utf8(bytes@),
            None => !valid_utf8(bytes@),
        },
{
    String::from_utf8(bytes).ok()
}

/// The reflowed text that a converter run produced, or why there is none.
pub fn prettified_text(run: ConverterRun) -> (r: Result<String, RenderError>)
    ensures
        match run {
            ConverterRun::NotStarted => r == Err::<String, RenderError>(RenderError::Invoke),
            ConverterRun::Exited { success, stdout } => if !success {
                r == Err::<String, RenderError>(RenderError::Invoke)
            } else {
                match r {
                    Ok(text) => valid_utf8(stdout@) && text@ == decode_utf8(stdout@),
                    Err(e) => e == RenderError::NotText && !valid_utf8(stdout@),
                }
            },
        },
{
    match run {
        ConverterRun::NotStarted => Err(RenderError::Invoke),
        ConverterRun::Exited { success, stdout } => {
            if !success {
                return Err(RenderError::Invoke);
            }
            match decode_text(stdout) {
                Some(text) => Ok(text),
                None => Err(RenderError::NotText),
            }
        },
    }
}

} // verus!
