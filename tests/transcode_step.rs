use transcode_watch::{classify, output_path, transcode_command, ProcessResult, TranscodeOutcome};

#[test]
fn output_name_cuts_at_first_dot() {
    assert_eq!(
        output_path("/in/speech.v2.mp3", "/out"),
        Some("/out/speech_transcoded.wav".to_string())
    );
}

#[test]
fn output_name_of_multi_extension() {
    assert_eq!(output_path("a.b.mp3", "o"), Some("o/a_transcoded.wav".to_string()));
}

#[test]
fn output_name_without_extension() {
    assert_eq!(output_path("in/noext", "out"), Some("out/noext_transcoded.wav".to_string()));
}

#[test]
fn output_name_of_hidden_file_is_empty_stem() {
    assert_eq!(output_path("in/.hidden", "out"), Some("out/_transcoded.wav".to_string()));
}

#[test]
fn output_name_ignores_trailing_separators() {
    assert_eq!(output_path("in/clip.wav//", "out"), Some("out/clip_transcoded.wav".to_string()));
}

#[test]
fn output_name_keeps_only_last_component() {
    assert_eq!(
        output_path("/a/b.c/d/take.one.flac", "/o"),
        Some("/o/take_transcoded.wav".to_string())
    );
}

#[test]
fn no_output_for_root_or_parent() {
    assert_eq!(output_path("/", "out"), None);
    assert_eq!(output_path("", "out"), None);
    assert_eq!(output_path("a/..", "out"), None);
    assert_eq!(output_path("..", "out"), None);
    assert_eq!(output_path("/.", "out"), None);
    assert_eq!(output_path("./.", "out"), None);
    assert_eq!(output_path(".", "out"), None);
}

#[test]
fn trailing_dot_component_is_skipped() {
    assert_eq!(output_path("a/.", "out"), Some("out/a_transcoded.wav".to_string()));
    assert_eq!(output_path("in/clip.mp3/./", "out"), Some("out/clip_transcoded.wav".to_string()));
    assert_eq!(output_path("in/a/./.", "out"), Some("out/a_transcoded.wav".to_string()));
    assert_eq!(output_path("a/.", "out"), output_path("a", "out"));
}

#[test]
fn name_ending_in_dot_is_a_file_name() {
    assert_eq!(output_path("in/take.", "out"), Some("out/take_transcoded.wav".to_string()));
}

#[test]
fn same_stem_gives_same_output() {
    assert_eq!(output_path("x/song.mp3", "o"), output_path("y/song.flac", "o"));
}

#[test]
fn command_has_fixed_arguments() {
    let c = transcode_command("/in/speech.v2.mp3", "/out").unwrap();
    assert_eq!(c.program, "ffmpeg");
    let expected: Vec<String> = vec![
        "-i",
        "/in/speech.v2.mp3",
        "-ac",
        "1",
        "-ar",
        "16000",
        "-sample_fmt",
        "s16",
        "/out/speech_transcoded.wav",
    ]
    .into_iter()
    .map(|s| s.to_string())
    .collect();
    assert_eq!(c.args, expected);
    assert_eq!(c.output, "/out/speech_transcoded.wav");
}

#[test]
fn no_command_without_file_name() {
    assert!(transcode_command("/", "/out").is_none());
}

#[test]
fn successful_exit_is_success() {
    let out = "/out/a_transcoded.wav".to_string();
    let r = classify(&out, ProcessResult::Exited { success: true, stderr: String::new() });
    assert!(r.is_success());
    assert!(matches!(r, TranscodeOutcome::Success { output_path } if output_path == out));
}

#[test]
fn failed_exit_keeps_stderr() {
    let out = "/out/a_transcoded.wav".to_string();
    let r = classify(
        &out,
        ProcessResult::Exited { success: false, stderr: "no such file".to_string() },
    );
    assert!(!r.is_success());
    assert!(matches!(r, TranscodeOutcome::Failed { stderr } if stderr == "no such file"));
}

#[test]
fn launch_failure_is_a_failure() {
    let out = "/out/a_transcoded.wav".to_string();
    let r = classify(&out, ProcessResult::LaunchFailed { message: "not found".to_string() });
    assert!(matches!(r, TranscodeOutcome::LaunchFailed { message } if message == "not found"));
}
