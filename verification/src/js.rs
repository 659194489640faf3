//! The decisions around running the `scaler.js` script: which script runs,
//! and what text its run comes to.
use vstd::prelude::*;

use crate::text::{chars_of, string_from, string_of, trim, trim_chars};

verus! {

/// The script that runs: `scaler_path`, or, where it is `default`, the script
/// beside the executable.
pub fn scaler_script(scaler_path: String, beside_executable: String) -> (res: String)
    ensures
        res@ == if scaler_path@ == "default"@ {
            beside_executable@
        } else {
            scaler_path@
        },
{
    if scaler_path == string_from("default") {
        beside_executable
    } else {
        scaler_path
    }
}

/// How a run of the scaler went.
pub enum ScalerOutcome {
    /// The script ran and succeeded; its standard output, `None` where that
    /// is not UTF-8.
    Succeeded(Option<String>),
    /// The script ran and failed; its standard error.
    Failed(String),
    /// The script could not be started; the error's text.
    NotStarted(String),
}

/// The text a run comes to, before trimming.
pub open spec fn scaler_text(outcome: ScalerOutcome) -> Seq<char> {
    match outcome {
        ScalerOutcome::Succeeded(Some(out)) => out@,
        ScalerOutcome::Succeeded(None) => "Invalid UTF-8"@,
        ScalerOutcome::Failed(err) => "JS error: "@ + trim(err@),
        ScalerOutcome::NotStarted(err) => "Failed to run node: "@ + err@,
    }
}

/// The text a run of the scaler comes to, trimmed: its output where it
/// succeeded, else a message that says what went wrong.
pub fn scaler_result(outcome: ScalerOutcome) -> (res: String)
    ensures
        res@ == trim(scaler_text(outcome)),
{
    let ghost o = outcome;
    let text: Vec<char> = match outcome {
        ScalerOutcome::Succeeded(Some(out)) => chars_of(out.as_str()),
        ScalerOutcome::Succeeded(None) => chars_of("Invalid UTF-8"),
        ScalerOutcome::Failed(err) => {
            let mut v = chars_of("JS error: ");
            let mut e = trim_chars(&chars_of(err.as_str()));
            v.append(&mut e);
            v
        },
        ScalerOutcome::NotStarted(err) => {
            let mut v = chars_of("Failed to run node: ");
            let mut e = chars_of(err.as_str());
            v.append(&mut e);
            v
        },
    };
    assert(text@ == scaler_text(o));
    string_of(&trim_chars(&text))
}

} // verus!
