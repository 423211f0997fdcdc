//! Tests for the cross-argument validation of a run's configuration.

use std::str::FromStr;

use waver::cli::{AudioPath, FileExtensions, Height, WaverArgs, Width};
use waver::color::Rgba;

fn args_with(output_filename: Option<String>, audio_paths: Vec<AudioPath>) -> WaverArgs {
    WaverArgs {
        width: Width::new(2048).unwrap(),
        height: Height::new(128).unwrap(),
        left_color: Rgba::from_str("00ff99").unwrap(),
        right_color: Rgba::from_str("99ff00").unwrap(),
        background_color: Rgba::from_str("ffffff00").unwrap(),
        output_filename,
        file_extensions: FileExtensions::from_str("mp3").unwrap(),
        dry_run: false,
        overwrite: false,
        quiet: false,
        verbose: false,
        audio_paths,
    }
}

fn file(path: &str) -> AudioPath {
    AudioPath::new(path, true, false).unwrap()
}

fn directory(path: &str) -> AudioPath {
    AudioPath::new(path, true, true).unwrap()
}

#[test]
fn test_validate_single_file_with_output() {
    let args = args_with(Some(String::from("out.png")), vec![file("a.mp3")]);
    assert!(args.validate().is_ok());
}

#[test]
fn test_validate_multiple_files_without_output() {
    let args = args_with(None, vec![file("a.mp3"), file("b.mp3")]);
    assert!(args.validate().is_ok());
}

#[test]
fn test_validate_rejects_output_with_multiple_files() {
    let args = args_with(
        Some(String::from("out.png")),
        vec![file("a.mp3"), file("b.mp3")],
    );
    let err = args.validate().unwrap_err();
    assert_eq!(
        err.message(),
        "Invalid argument: Cannot specify --output-filename with multiple audio files"
    );
}

#[test]
fn test_validate_rejects_output_with_directory() {
    let args = args_with(Some(String::from("out.png")), vec![directory("music")]);
    let err = args.validate().unwrap_err();
    assert_eq!(
        err.message(),
        "Invalid argument: Cannot specify --output-filename with a directory"
    );
}

#[test]
fn test_accessors_follow_fields() {
    let args = args_with(None, vec![file("a.mp3")]);
    assert_eq!(args.width(), 2048);
    assert_eq!(args.height(), 128);
    assert_eq!(args.center(), 64);
    assert_eq!(args.file_extensions(), vec!["mp3"]);
}
