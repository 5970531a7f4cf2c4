//! Audio transcription: the request and reply, the command that runs the
//! transcriber, and how its output becomes a transcript.

use vstd::prelude::*;
use crate::text::{join, join_strings, trim};

verus! {

/// A request to transcribe recorded audio.
#[derive(Debug, Clone)]
pub struct TranscribeAudioRequest {
    /// The audio, base64-encoded.
    pub audio_base64: String,
    pub mime_type: String,
    pub agent_id: String,
}

/// The transcript of a recording.
#[derive(Debug, Clone)]
pub struct TranscribeAudioResponse {
    pub transcript: String,
}

/// The agent named when a request names none.
pub fn default_agent_for_transcription() -> (r: String)
    ensures
        r@ == "default"@,
{
    String::from_str("default")
}

/// A setting taken from the environment when it is set there, else from the
/// configuration.
pub fn setting_or(from_env: Option<String>, configured: &str) -> (r: String)
    ensures
        r@ == (match from_env { Some(v) => v@, None => configured@ }),
{
    match from_env {
        Some(v) => v,
        None => String::from_str(configured),
    }
}

/// The arguments of the `docker` command that transcribes `/app/FILE` with the
/// given image and model, writing JSON next to the audio; a language is passed
/// only when one is set.
pub open spec fn whisper_args(dir: Seq<char>, file: Seq<char>, image: Seq<char>, model: Seq<char>, language: Seq<char>) -> Seq<Seq<char>> {
    seq![
        "run"@, "--rm"@, "-v"@, dir + ":/app"@, image, "/app/"@ + file, "--model"@, model, "--output_format"@,
        "json"@, "--output_dir"@, "/app"@, "--task"@, "transcribe"@,
    ] + (if language.len() > 0 { seq!["--language"@, language] } else { Seq::empty() })
}

/// Builds the arguments of the transcription command.
pub fn build_whisper_args(dir: &str, file: &str, image: &str, model: &str, language: &str) -> (r: Vec<String>)
    ensures
        r@.map_values(|s: String| s@) == whisper_args(dir@, file@, image@, model@, language@),
{
    let mut mount = String::from_str(dir);
    mount.append(":/app");
    let mut path = String::from_str("/app/");
    path.append(file);
    let mut r: Vec<String> = vec![
        String::from_str("run"),
        String::from_str("--rm"),
        String::from_str("-v"),
        mount,
        String::from_str(image),
        path,
        String::from_str("--model"),
        String::from_str(model),
        String::from_str("--output_format"),
        String::from_str("json"),
        String::from_str("--output_dir"),
        String::from_str("/app"),
        String::from_str("--task"),
        String::from_str("transcribe"),
    ];
    if !language.is_empty() {
        r.push(String::from_str("--language"));
        r.push(String::from_str(language));
    }
    assert(r@.map_values(|s: String| s@) =~= whisper_args(dir@, file@, image@, model@, language@));
    r
}

/// What the transcriber wrote, as far as the transcript needs it.
#[derive(Debug, Clone)]
pub enum WhisperOutput {
    /// An object with a `text` string.
    Text(String),
    /// An array; the `text` strings of its items, in order.
    Items(Vec<String>),
    /// Anything else.
    Other,
}

/// The transcript in the output, or why there is none.
pub open spec fn transcript_of(out: WhisperOutput) -> Result<Seq<char>, Seq<char>> {
    let t = match out {
        WhisperOutput::Text(s) => Some(trim(s@)),
        WhisperOutput::Items(v) => Some(trim(join(v@.map_values(|s: String| s@), " "@))),
        WhisperOutput::Other => None,
    };
    match t {
        None => Err("Unrecognized JSON format from Whisper"@),
        Some(x) => if x.len() == 0 { Err("Transcription returned empty result"@) } else { Ok(x) },
    }
}

/// A transcript that is returned is never empty and has no surrounding
/// whitespace; output whose text is only whitespace is refused.
pub proof fn law_transcript_trimmed(out: WhisperOutput)
    ensures
        transcript_of(out) matches Ok(t) ==> t.len() > 0 && trim(t) == t,
        (out matches WhisperOutput::Text(s) && trim(s@).len() == 0) ==> transcript_of(out) is Err,
{
    match out {
        WhisperOutput::Text(s) => crate::text::lemma_trim_idempotent(s@),
        WhisperOutput::Items(v) => crate::text::lemma_trim_idempotent(join(v@.map_values(|s: String| s@), " "@)),
        WhisperOutput::Other => {},
    }
}

/// Takes the transcript from the transcriber's output: the trimmed text, or the
/// items' texts joined by spaces and trimmed; an empty transcript is an error.
pub fn extract_transcript(out: &WhisperOutput) -> (r: Result<String, String>)
    ensures
        match transcript_of(*out) {
            Ok(t) => r matches Ok(s) && s@ == t,
            Err(e) => r matches Err(m) && m@ == e,
        },
{
    let t = match out {
        WhisperOutput::Text(s) => crate::chat::trimmed(s.as_str()),
        WhisperOutput::Items(v) => {
            let joined = join_strings(v, " ");
            crate::chat::trimmed(joined.as_str())
        },
        WhisperOutput::Other => {
            return Err(String::from_str("Unrecognized JSON format from Whisper"));
        },
    };
    if t.as_str().is_empty() {
        Err(String::from_str("Transcription returned empty result"))
    } else {
        Ok(t)
    }
}

/// The error shown when transcription fails.
pub fn transcription_failure(error: &str, image: &str) -> (r: String)
    ensures
        r@ == "Transcription failed: "@ + error@ + ". Make sure Docker is running and "@ + image@ + " is available."@,
{
    let mut m = String::from_str("Transcription failed: ");
    m.append(error);
    m.append(". Make sure Docker is running and ");
    m.append(image);
    m.append(" is available.");
    m
}

/// The name given to what the standard base64 engine of the `base64` crate
/// decodes a text to, or the text of its error.
pub uninterp spec fn base64_decoding(text: Seq<char>) -> Result<Seq<u8>, Seq<char>>;

/// Decodes standard base64 with `base64::engine::general_purpose::STANDARD`.
/// Claimed: the bytes, or the error text, are a function of the input, named
/// `base64_decoding`.
#[verifier::external_body]
fn base64_decode(text: &str) -> (r: Result<Vec<u8>, String>)
    ensures
        match base64_decoding(text@) {
            Ok(b) => r matches Ok(v) && v@ == b,
            Err(e) => r matches Err(m) && m@ == e,
        },
{
    <base64::engine::GeneralPurpose as base64::Engine>::decode(&base64::engine::general_purpose::STANDARD, text).map_err(
        |e| e.to_string(),
    )
}

/// The recorded audio of a request; a payload that is not base64 is refused
/// with the decoder's reason.
pub fn decode_audio(req: &TranscribeAudioRequest) -> (r: Result<Vec<u8>, String>)
    ensures
        match base64_decoding(req.audio_base64@) {
            Ok(b) => r matches Ok(v) && v@ == b,
            Err(e) => r matches Err(m) && m@ == "Failed to decode audio: "@ + e,
        },
{
    match base64_decode(req.audio_base64.as_str()) {
        Ok(v) => Ok(v),
        Err(e) => {
            let mut m = String::from_str("Failed to decode audio: ");
            m.append(e.as_str());
            Err(m)
        },
    }
}

} // verus!
