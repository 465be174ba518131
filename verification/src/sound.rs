//! A named sound, and what is reported when it cannot be played.

use std::path::PathBuf;
use vstd::prelude::*;
use vstd::string::StringExecFns;

verus! {

/// `PathBuf` of std, carried as it is: the soundboard hands a path on and
/// asks for its text, and never looks inside one.
#[verifier::external_type_specification]
#[verifier::external_body]
pub struct ExPathBuf(std::path::PathBuf);

/// The text of a path, where the path is valid Unicode.
pub uninterp spec fn path_text(path: PathBuf) -> Option<Seq<char>>;

/// The path that a text spells.
pub uninterp spec fn path_of_text(text: Seq<char>) -> PathBuf;

/// `Path::to_str` of std: the text of the path, or nothing where the path
/// is not valid Unicode.
#[verifier::external_body]
fn path_to_text(path: &PathBuf) -> (text: Option<String>)
    ensures
        text is Some <==> path_text(*path) is Some,
        text is Some ==> text->Some_0@ == path_text(*path)->Some_0,
{
    path.to_str().map(str::to_owned)
}

/// `PathBuf::from` of std on a `String`: the path that the text spells.
#[verifier::external_body]
fn path_from_text(text: String) -> (path: PathBuf)
    ensures
        path == path_of_text(text@),
{
    PathBuf::from(text)
}

/// `Clone` of std's `PathBuf`: the same path again.
#[verifier::external_body]
fn path_clone(path: &PathBuf) -> (copy: PathBuf)
    ensures
        copy == *path,
{
    path.clone()
}

/// What a [`Sound`] is to the contracts: its label and where its audio lies.
pub struct SoundView {
    pub name: Seq<char>,
    pub path: PathBuf,
}

/// A label and the location of an audio asset. Never changed once made.
#[derive(Debug, PartialEq, Eq)]
pub struct Sound {
    name: String,
    path_to_file: PathBuf,
}

impl View for Sound {
    type V = SoundView;

    closed spec fn view(&self) -> SoundView {
        SoundView { name: self.name@, path: self.path_to_file }
    }
}

impl Clone for Sound {
    fn clone(&self) -> (copy: Sound)
        ensures
            copy@ == self@,
    {
        Sound { name: self.name.clone(), path_to_file: path_clone(&self.path_to_file) }
    }
}

/// The step of a playback that failed, with the reason that was given.
#[derive(Debug, PartialEq, Eq)]
pub enum PlaybackFailure {
    /// The file could not be opened.
    Open(String),
    /// The file holds no audio that can be decoded.
    Decode(String),
    /// The output would not take the decoded audio.
    Output(String),
}

/// How a sound whose file cannot be opened is named: by the text of its
/// path or, where the path has none, by its label.
pub open spec fn unopened(name: Seq<char>, path: Option<Seq<char>>) -> Seq<char> {
    match path {
        Some(text) => "Something went wrong when trying to open file at path: ("@ + text + ")"@,
        None => "Something went wrong when trying to open audio file of a sound named: ("@ + name
            + ")"@,
    }
}

/// The report of a playback that failed. A file that cannot be opened is
/// named as [`unopened`] says, audio that cannot be decoded by the sound's
/// label.
pub open spec fn notice_text(sound: SoundView, failure: PlaybackFailure) -> Seq<char> {
    match failure {
        PlaybackFailure::Open(reason) => unopened(sound.name, path_text(sound.path))
            + "\nError message: "@ + reason@,
        PlaybackFailure::Decode(reason) =>
            "An error occurred while trying to create a decoder for audio ("@ + sound.name
                + "), error message: "@ + reason@,
        PlaybackFailure::Output(reason) => "An error occurred while trying to play a sound ("@
            + reason@ + ")"@,
    }
}

/// Names a sound whose file cannot be opened, by the text of its path where
/// there is one, else by its label.
pub fn name_unopened(name: &str, path: Option<String>) -> (named: String)
    ensures
        named@ == unopened(name@, text_view(path)),
{
    match path {
        Some(text) => {
            let mut named = String::from_str(
                "Something went wrong when trying to open file at path: (",
            );
            named.append(text.as_str());
            named.append(")");
            named
        },
        None => {
            let mut named = String::from_str(
                "Something went wrong when trying to open audio file of a sound named: (",
            );
            named.append(name);
            named.append(")");
            named
        },
    }
}

/// A text that may be missing, as the contracts see it.
pub open spec fn text_view(text: Option<String>) -> Option<Seq<char>> {
    match text {
        Some(text) => Some(text@),
        None => None,
    }
}

impl Sound {
    /// A sound with the given label, whose audio lies at the given path.
    pub fn new(name: String, path_to_file: PathBuf) -> (sound: Sound)
        ensures
            sound@.name == name@,
            sound@.path == path_to_file,
    {
        Sound { name, path_to_file }
    }

    /// A sound with the given label, whose audio lies at the path that the
    /// text spells.
    pub fn at(name: String, path: String) -> (sound: Sound)
        ensures
            sound@.name == name@,
            sound@.path == path_of_text(path@),
    {
        Sound { name, path_to_file: path_from_text(path) }
    }

    /// The label of the sound.
    pub fn name(&self) -> (name: &str)
        ensures
            name@ == self@.name,
    {
        self.name.as_str()
    }

    /// The location of the sound's audio.
    pub fn path(&self) -> (path: &PathBuf)
        ensures
            *path == self@.path,
    {
        &self.path_to_file
    }

    /// The line to report when playing the sound has failed. The failure
    /// concerns this sound alone: nothing else is to stop for it.
    pub fn failure_notice(&self, failure: &PlaybackFailure) -> (notice: String)
        ensures
            notice@ == notice_text(self@, *failure),
    {
        match failure {
            PlaybackFailure::Open(reason) => {
                let mut notice = name_unopened(
                    self.name.as_str(),
                    path_to_text(&self.path_to_file),
                );
                notice.append("\nError message: ");
                notice.append(reason.as_str());
                notice
            },
            PlaybackFailure::Decode(reason) => {
                let mut notice = String::from_str(
                    "An error occurred while trying to create a decoder for audio (",
                );
                notice.append(self.name.as_str());
                notice.append("), error message: ");
                notice.append(reason.as_str());
                notice
            },
            PlaybackFailure::Output(reason) => {
                let mut notice = String::from_str(
                    "An error occurred while trying to play a sound (",
                );
                notice.append(reason.as_str());
                notice.append(")");
                notice
            },
        }
    }
}

} // verus!
