//! What can go wrong while a sound is loaded or played.
use vstd::prelude::*;

verus! {

/// Why a sound could not be loaded.
#[derive(Debug, PartialEq, Eq)]
pub enum LoadErrorReason {
    /// No file, or nothing handed in, under the sound's name.
    FileDoesntExist,
    /// The file could not be read; the text is the reader's own.
    FileReadError(String),
    /// The file is no sound that the decoder reads; the text is the decoder's own.
    ReadOggError(String),
    /// The sound has more than two channels.
    TooManyChannels,
}

/// A failed load: the file, or the sound's name where no file was read, and
/// the reason.
#[derive(Debug, PartialEq, Eq)]
pub struct LoadError {
    pub path: String,
    pub reason: LoadErrorReason,
}

/// A failed preload.
#[derive(Clone, Debug, PartialEq, Eq)]
pub enum PreloadError {
    LoadError(LoadError),
}

/// Why an event did not get a voice.
#[derive(Clone, Debug, PartialEq, Eq)]
pub enum SoundEventError {
    /// The sound could not be loaded. The engine goes on with the next event.
    LoadSoundError(LoadError),
    /// Every static voice is bound.
    NoFreeStaticSource,
    /// Every streaming voice is bound.
    NoFreeStreamingSource,
    /// The cache lacks the sound and none was handed in with the event.
    NoSounds,
}

impl Clone for LoadErrorReason {
    fn clone(&self) -> (r: Self)
        ensures
            r == *self,
    {
        match self {
            LoadErrorReason::FileDoesntExist => LoadErrorReason::FileDoesntExist,
            LoadErrorReason::FileReadError(text) => LoadErrorReason::FileReadError(text.clone()),
            LoadErrorReason::ReadOggError(text) => LoadErrorReason::ReadOggError(text.clone()),
            LoadErrorReason::TooManyChannels => LoadErrorReason::TooManyChannels,
        }
    }
}

impl Clone for LoadError {
    fn clone(&self) -> (r: Self)
        ensures
            r == *self,
    {
        LoadError { path: self.path.clone(), reason: self.reason.clone() }
    }
}

impl PreloadError {
    /// A load error, as a preload error.
    pub fn from(val: LoadError) -> (r: PreloadError)
        ensures
            r == PreloadError::LoadError(val),
    {
        PreloadError::LoadError(val)
    }
}

impl SoundEventError {
    /// A preload error, as the event error that carries the same load error.
    pub fn from(val: PreloadError) -> (r: SoundEventError)
        ensures
            r == SoundEventError::LoadSoundError(val->LoadError_0),
    {
        match val {
            PreloadError::LoadError(le) => SoundEventError::LoadSoundError(le),
        }
    }
}

} // verus!
