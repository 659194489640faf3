use factorsvg::js::{scaler_result, scaler_script, ScalerOutcome};

#[test]
fn scaler_script_default_means_beside_executable() {
    assert_eq!(scaler_script("default".to_string(), "/bin/scaler.js".to_string()), "/bin/scaler.js");
    assert_eq!(scaler_script("my.js".to_string(), "/bin/scaler.js".to_string()), "my.js");
}

#[test]
fn scaler_results() {
    assert_eq!(scaler_result(ScalerOutcome::Succeeded(Some(" M1 2\n".to_string()))), "M1 2");
    assert_eq!(scaler_result(ScalerOutcome::Succeeded(None)), "Invalid UTF-8");
    assert_eq!(scaler_result(ScalerOutcome::Failed("  boom \n".to_string())), "JS error: boom");
    assert_eq!(scaler_result(ScalerOutcome::Failed("".to_string())), "JS error:");
    assert_eq!(
        scaler_result(ScalerOutcome::NotStarted("No such file".to_string())),
        "Failed to run node: No such file"
    );
}
