use squid::audio::{build_whisper_args, default_agent_for_transcription, extract_transcript, transcription_failure, WhisperOutput};

#[test]
fn whisper_command_arguments() {
    let args = build_whisper_args("/tmp", "a.wav", "img", "base", "");
    assert_eq!(args.len(), 14);
    assert_eq!(args[3], "/tmp:/app");
    assert_eq!(args[5], "/app/a.wav");
    let with_lang = build_whisper_args("/tmp", "a.wav", "img", "base", "fr");
    assert_eq!(with_lang[14], "--language");
    assert_eq!(with_lang[15], "fr");
}

#[test]
fn transcripts_from_whisper_output() {
    assert_eq!(extract_transcript(&WhisperOutput::Text("  hi  ".to_string())), Ok("hi".to_string()));
    assert_eq!(
        extract_transcript(&WhisperOutput::Items(vec!["a".to_string(), "b ".to_string()])),
        Ok("a b".to_string())
    );
    assert_eq!(extract_transcript(&WhisperOutput::Text(" ".to_string())), Err("Transcription returned empty result".to_string()));
    assert_eq!(extract_transcript(&WhisperOutput::Other), Err("Unrecognized JSON format from Whisper".to_string()));
    assert_eq!(default_agent_for_transcription(), "default");
    assert_eq!(
        transcription_failure("boom", "img"),
        "Transcription failed: boom. Make sure Docker is running and img is available."
    );
}
