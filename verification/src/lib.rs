//! A positional-audio runtime, seen from the side that decides.
//!
//! The crate holds the voice pool, the buffer cache, the streaming pipeline
//! and the engine that reconciles a description of what should be playing
//! with what the voices are doing. It never touches an audio device or a
//! file. Every operation takes what was observed outside (which voices have
//! stopped, what a decoder found) as plain values, changes the bookkeeping,
//! and answers with the commands that the caller is to run on the device, in
//! order.
//!
//! Numbers that the device reads as single-precision floats (gains, pitches,
//! coordinates) are carried as their IEEE-754 bit patterns in a `u32`: the
//! crate only stores them and tests them for equality. Durations are whole
//! milliseconds.
use vstd::prelude::*;

pub mod context;
pub mod device;
pub mod engine;
pub mod errors;
pub mod laws;
pub mod load;
pub mod source;

verus! {

/// The name under which a sound is cached and found on disk.
pub type SoundName = String;

/// The identity of one assignment of an event to a voice.
pub type SoundEventId = u64;

/// A gain, as the bit pattern of a single-precision float.
pub type Gain = u32;

pub type LoadResult<T> = Result<T, errors::LoadError>;

pub type PreloadResult<T> = Result<T, errors::PreloadError>;

pub type SoundEventResult<T> = Result<T, errors::SoundEventError>;

/// The bit pattern of `0.0`.
pub const ZERO: u32 = 0;

/// The bit pattern of `1.0`.
pub const ONE: u32 = 0x3F80_0000;

/// The bit pattern of `-1.0`.
pub const MINUS_ONE: u32 = 0xBF80_0000;

/// Three coordinates, each the bit pattern of a single-precision float.
#[derive(Clone, Copy, Debug, PartialEq, Eq, Structural)]
pub struct Vec3f {
    pub x: u32,
    pub y: u32,
    pub z: u32,
}

/// How the device lets a sound fade with distance.
#[derive(Clone, Copy, Debug, PartialEq, Eq, Structural)]
pub enum DistanceModel {
    /// No fading at all.
    Unattenuated,
    Inverse,
    InverseClamped,
    Linear,
    LinearClamped,
    Exponent,
    ExponentClamped,
}

/// One request to play a sound. It is made by the caller each tick and never
/// changed afterwards.
#[derive(Debug, PartialEq, Eq)]
pub struct SoundEvent {
    pub name: String,
    pub position: Vec3f,
    pub gain: u32,
    pub pitch: u32,
    pub attenuation: u32,
    pub loop_sound: bool,
}

impl Clone for SoundEvent {
    fn clone(&self) -> (r: Self)
        ensures
            r == *self,
    {
        SoundEvent {
            name: self.name.clone(),
            position: self.position,
            gain: self.gain,
            pitch: self.pitch,
            attenuation: self.attenuation,
            loop_sound: self.loop_sound,
        }
    }
}

/// Where the listener is and how it is turned.
#[derive(Clone, Copy, Debug, PartialEq, Eq, Structural)]
pub struct Listener {
    pub position: Vec3f,
    pub velocity: Vec3f,
    pub orientation_up: Vec3f,
    pub orientation_forward: Vec3f,
}

impl Listener {
    /// The listener at rest in the origin, its head up along `y`, looking
    /// down the negative `z` axis.
    pub open spec fn default_value() -> Listener {
        Listener {
            position: Vec3f { x: ZERO, y: ZERO, z: ZERO },
            velocity: Vec3f { x: ZERO, y: ZERO, z: ZERO },
            orientation_up: Vec3f { x: ZERO, y: ONE, z: ZERO },
            orientation_forward: Vec3f { x: ZERO, y: ZERO, z: MINUS_ONE },
        }
    }

    /// The listener at rest in the origin, its head up along `y`, looking
    /// down the negative `z` axis.
    pub fn default() -> (r: Listener)
        ensures
            r == Listener::default_value(),
    {
        Listener {
            position: Vec3f { x: ZERO, y: ZERO, z: ZERO },
            velocity: Vec3f { x: ZERO, y: ZERO, z: ZERO },
            orientation_up: Vec3f { x: ZERO, y: ONE, z: ZERO },
            orientation_forward: Vec3f { x: ZERO, y: ZERO, z: MINUS_ONE },
        }
    }
}

} // verus!
