//! Tests for the error type's constructors and message rendering.

use waver::error::WaverError;

#[test]
fn test_argument_error_message() {
    let err = WaverError::argument_error(String::from("bad flag"));
    assert_eq!(err.message(), "Invalid argument: bad flag");
}

#[test]
fn test_generation_error_message() {
    let err = WaverError::generation_error(String::from("no audio track"));
    assert_eq!(err.message(), "Waveform generation error: no audio track");
}

#[test]
fn test_png_error_message() {
    let err = WaverError::PngError(String::from("stream closed"));
    assert_eq!(err.message(), "PNG encoding error: stream closed");
}
