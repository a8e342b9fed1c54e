//! Rules of the voice cloning dialog: which inputs a new voice needs before
//! it is created, and which temporary recordings are old enough to delete.
//! Reading the form, the audio file and the temporary directory is done by
//! the caller.

use vstd::prelude::*;
use vstd::string::*;
use crate::text::{trimmed, trim, chars_of};

verus! {

/// Why a new voice cannot be created yet.
#[derive(Debug, Clone, Copy, PartialEq, Eq, Structural)]
pub enum CloneInputError {
    MissingName,
    MissingText,
    MissingAudio,
    AudioNotValidated,
}

/// The message shown for an input error.
pub open spec fn clone_error_text(e: CloneInputError) -> Seq<char> {
    match e {
        CloneInputError::MissingName => "Please enter a voice name"@,
        CloneInputError::MissingText => "Please enter the reference text"@,
        CloneInputError::MissingAudio => "Please select a reference audio file"@,
        CloneInputError::AudioNotValidated => "Audio file not validated. Please re-select the file"@,
    }
}

impl CloneInputError {
    /// The message shown for the error.
    pub fn message(&self) -> (r: &'static str)
        ensures
            r@ == clone_error_text(*self),
    {
        match self {
            CloneInputError::MissingName => "Please enter a voice name",
            CloneInputError::MissingText => "Please enter the reference text",
            CloneInputError::MissingAudio => "Please select a reference audio file",
            CloneInputError::AudioNotValidated => "Audio file not validated. Please re-select the file",
        }
    }
}

/// The first missing input, in the order the dialog checks them: the voice
/// name and the reference text must hold more than white space, an audio
/// file must be selected and validated.
pub open spec fn clone_check_spec(
    name: Seq<char>,
    text: Seq<char>,
    has_file: bool,
    validated: bool,
) -> Result<(), CloneInputError> {
    if trimmed(name).len() == 0 {
        Err(CloneInputError::MissingName)
    } else if trimmed(text).len() == 0 {
        Err(CloneInputError::MissingText)
    } else if !has_file {
        Err(CloneInputError::MissingAudio)
    } else if !validated {
        Err(CloneInputError::AudioNotValidated)
    } else {
        Ok(())
    }
}

/// Checks the inputs of a new voice. The length of the validated audio is
/// checked by the caller afterwards.
pub fn check_clone_inputs(voice_name: &str, prompt_text: &str, has_file: bool, audio_validated: bool) -> (r:
    Result<(), CloneInputError>)
    ensures
        r == clone_check_spec(voice_name@, prompt_text@, has_file, audio_validated),
{
    let name = trim(voice_name);
    if name.as_str().unicode_len() == 0 {
        return Err(CloneInputError::MissingName);
    }
    let text = trim(prompt_text);
    if text.as_str().unicode_len() == 0 {
        return Err(CloneInputError::MissingText);
    }
    if !has_file {
        return Err(CloneInputError::MissingAudio);
    }
    if !audio_validated {
        return Err(CloneInputError::AudioNotValidated);
    }
    Ok(())
}

/// Temporary recordings older than this are deleted (one hour).
pub const RECORDING_MAX_AGE_MS: u64 = 3_600_000;

/// `p` is a prefix of `s`.
pub open spec fn has_prefix(s: Seq<char>, p: Seq<char>) -> bool {
    p.len() <= s.len() && s.subrange(0, p.len() as int) == p
}

/// `p` is a suffix of `s`.
pub open spec fn has_suffix(s: Seq<char>, p: Seq<char>) -> bool {
    p.len() <= s.len() && s.subrange(s.len() - p.len(), s.len() as int) == p
}

/// A file name of the dialog's temporary recordings.
pub open spec fn recording_file_spec(name: Seq<char>) -> bool {
    has_prefix(name, "voice_clone_recording_"@) && has_suffix(name, ".wav"@)
}

/// The characters of `p` start `s` at position `at`.
fn matches_at(s: &Vec<char>, p: &Vec<char>, at: usize) -> (r: bool)
    requires
        at + p.len() <= s.len(),
    ensures
        r == (s@.subrange(at as int, at + p.len()) == p@),
{
    let mut k: usize = 0;
    while k < p.len()
        invariant
            at + p.len() <= s.len(),
            k <= p.len(),
            forall|m: int| 0 <= m < k ==> s@[at + m] == p@[m],
        decreases p.len() - k,
    {
        if s[at + k] != p[k] {
            assert(s@.subrange(at as int, at + p.len())[k as int] != p@[k as int]);
            return false;
        }
        k = k + 1;
    }
    assert(s@.subrange(at as int, at + p.len()) =~= p@);
    true
}

/// Whether a file name is one of the dialog's temporary recordings.
pub fn is_recording_file(name: &str) -> (r: bool)
    ensures
        r == recording_file_spec(name@),
{
    let s = chars_of(name);
    let prefix = chars_of("voice_clone_recording_");
    let suffix = chars_of(".wav");
    if prefix.len() > s.len() || suffix.len() > s.len() {
        return false;
    }
    matches_at(&s, &prefix, 0) && matches_at(&s, &suffix, s.len() - suffix.len())
}

/// A recording last modified at `modified_ms` is stale at `now_ms`.
pub open spec fn recording_stale_spec(modified_ms: u64, now_ms: u64) -> bool {
    modified_ms + RECORDING_MAX_AGE_MS < now_ms
}

/// Whether a temporary recording is old enough to delete (times in
/// milliseconds since the Unix epoch).
pub fn is_stale_recording(modified_ms: u64, now_ms: u64) -> (r: bool)
    ensures
        r == recording_stale_spec(modified_ms, now_ms),
{
    now_ms >= RECORDING_MAX_AGE_MS && modified_ms < now_ms - RECORDING_MAX_AGE_MS
}

} // verus!
