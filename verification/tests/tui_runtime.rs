use verifiable_intelligence::errors::ViError;
use verifiable_intelligence::tui::{run, RunOptions, RunReport, TamperMode};

#[test]
fn runtime_echoes_its_options_in_a_stub_report() {
    let options = RunOptions::new(
        Some("https://provider.example".to_owned()),
        Some(TamperMode::ByteFlip),
        250,
    );
    assert_eq!(
        run(options),
        Ok(RunReport {
            status: "stub",
            endpoint: Some("https://provider.example".to_owned()),
            tamper: Some(TamperMode::ByteFlip),
            phase_delay_ms: 250,
        })
    );
    assert_eq!(TamperMode::ByteFlip.as_str(), "byte-flip");
    assert!(run(RunOptions::new(None, None, 0)).is_ok());
}

#[test]
fn empty_endpoint_is_input_error() {
    assert_eq!(
        run(RunOptions::new(Some(String::new()), None, 0)),
        Err(ViError::Input {
            arg: "--endpoint".to_owned(),
            reason: "endpoint cannot be empty".to_owned(),
            detail: None,
        })
    );
}
