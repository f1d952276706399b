//! The commands that the library hands to whoever drives the audio device.
use vstd::prelude::*;
use crate::{DistanceModel, Gain, Listener, SoundEvent};

verus! {

/// One playback channel of the device: a static voice plays one buffer that
/// was decoded beforehand, a streaming voice is fed piece by piece. The number
/// is the voice's place in its pool.
#[derive(Clone, Copy, Debug, PartialEq, Eq, Structural)]
pub enum Voice {
    Static(usize),
    Streaming(usize),
}

/// One thing for the caller to do on the device. A script is a list of these,
/// to be run in order.
#[derive(Clone, Debug, PartialEq, Eq)]
pub enum DeviceCommand {
    /// Stop the voice and take from it what it holds: for a streaming voice
    /// every queued slot and the open stream.
    Release(Voice),
    /// Stop the voice.
    Stop(Voice),
    /// Put the decoded sound of this name into a new device buffer.
    Upload { name: String },
    /// Give the static voice the device buffer of this name.
    BindBuffer { source_id: usize, name: String },
    /// Give the streaming voice the stream that was opened for this name.
    AttachStream { source_id: usize, name: String },
    /// Top the streaming voice's queue up, step by step, as
    /// `Sources::ensure_buffers_queued` directs.
    Refill { source_id: usize },
    /// Set the voice's position, gain, pitch, attenuation and loop flag.
    Apply { voice: Voice, event: SoundEvent },
    /// Start the voice.
    Play(Voice),
    /// Set the master gain.
    SetGain(Gain),
    /// Set the listener's position, velocity and orientation.
    SetListener(Listener),
    /// Set the distance model.
    SetDistanceModel(DistanceModel),
    /// Drop every device buffer.
    ClearBuffers,
}

impl DeviceCommand {
    /// Whether the rest of a script is given up when the device refuses this
    /// command. A voice that cannot be released is passed over.
    pub fn is_fatal(&self) -> (r: bool)
        ensures
            r == !(*self is Release),
    {
        match self {
            DeviceCommand::Release(_) => false,
            _ => true,
        }
    }
}

} // verus!
