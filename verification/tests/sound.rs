use std::path::PathBuf;

use soundboard::sound::{name_unopened, PlaybackFailure, Sound};

fn click() -> Sound {
    Sound::new(String::from("click"), PathBuf::from("/sounds/click.wav"))
}

#[test]
fn sound_keeps_name_and_path() {
    let sound = click();
    assert_eq!(sound.name(), "click");
    assert_eq!(sound.path(), &PathBuf::from("/sounds/click.wav"));
}

#[test]
fn sound_clone_is_the_same_sound() {
    let sound = click();
    let copy = sound.clone();
    assert_eq!(copy, sound);
    assert_eq!(copy.name(), "click");
    assert_eq!(copy.path(), &PathBuf::from("/sounds/click.wav"));
}

#[test]
fn file_that_cannot_be_opened_is_named_by_path() {
    let failure = PlaybackFailure::Open(String::from("No such file or directory (os error 2)"));
    assert_eq!(
        click().failure_notice(&failure),
        "Something went wrong when trying to open file at path: (/sounds/click.wav)\n\
         Error message: No such file or directory (os error 2)"
    );
}

#[test]
fn audio_that_cannot_be_decoded_is_named_by_label() {
    let failure = PlaybackFailure::Decode(String::from("Unrecognized format"));
    assert_eq!(
        click().failure_notice(&failure),
        "An error occurred while trying to create a decoder for audio (click), \
         error message: Unrecognized format"
    );
}

#[test]
fn output_that_refuses_is_reported_with_its_reason() {
    let failure = PlaybackFailure::Output(String::from("NoDevice"));
    assert_eq!(
        click().failure_notice(&failure),
        "An error occurred while trying to play a sound (NoDevice)"
    );
}

#[test]
fn sound_is_made_from_the_text_of_its_path() {
    let sound = Sound::at(String::from("click"), String::from("/sounds/click.wav"));
    assert_eq!(sound, click());
    assert_eq!(sound.path(), &PathBuf::from("/sounds/click.wav"));
}

#[test]
fn unopened_file_is_named_by_path_or_by_label() {
    assert_eq!(
        name_unopened("click", Some(String::from("/sounds/click.wav"))),
        "Something went wrong when trying to open file at path: (/sounds/click.wav)"
    );
    assert_eq!(
        name_unopened("click", None),
        "Something went wrong when trying to open audio file of a sound named: (click)"
    );
}
