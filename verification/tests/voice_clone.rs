use mofa_studio::text::trim;
use mofa_studio::voice_clone::{
    check_clone_inputs, is_recording_file, is_stale_recording, CloneInputError, RECORDING_MAX_AGE_MS,
};

#[test]
fn clone_inputs_are_checked_in_order() {
    assert_eq!(check_clone_inputs("  ", "text", true, true), Err(CloneInputError::MissingName));
    assert_eq!(check_clone_inputs("Me", "\t\n", true, true), Err(CloneInputError::MissingText));
    assert_eq!(check_clone_inputs("Me", "hello", false, false), Err(CloneInputError::MissingAudio));
    assert_eq!(check_clone_inputs("Me", "hello", true, false), Err(CloneInputError::AudioNotValidated));
    assert_eq!(check_clone_inputs(" Me ", " hello ", true, true), Ok(()));
    assert_eq!(CloneInputError::MissingName.message(), "Please enter a voice name");
    assert_eq!(
        CloneInputError::AudioNotValidated.message(),
        "Audio file not validated. Please re-select the file"
    );
}

#[test]
fn temporary_recordings() {
    assert!(is_recording_file("voice_clone_recording_1712.wav"));
    assert!(!is_recording_file("voice_clone_recording_1712.mp3"));
    assert!(!is_recording_file("other_1712.wav"));
    assert!(!is_recording_file(".wav"));
    let now = 10 * RECORDING_MAX_AGE_MS;
    assert!(is_stale_recording(now - RECORDING_MAX_AGE_MS - 1, now));
    assert!(!is_stale_recording(now - RECORDING_MAX_AGE_MS, now));
    assert!(!is_stale_recording(0, RECORDING_MAX_AGE_MS));
}

#[test]
fn trimming_removes_unicode_white_space_at_both_ends() {
    assert_eq!(trim("  a b \t\n"), "a b");
    assert_eq!(trim("\u{3000}x\u{3000}"), "x");
    assert_eq!(trim("   "), "");
    assert_eq!(trim(""), "");
    assert_eq!(trim("inner  space"), "inner  space");
}
