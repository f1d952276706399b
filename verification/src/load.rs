//! Decoded sounds, and the decisions that are taken while one is loaded.
use vstd::prelude::*;
use crate::LoadResult;
use crate::errors::{LoadError, LoadErrorReason};

verus! {

/// A decoded sound: interleaved samples, the sample rate in hertz, and the
/// number of channels.
#[derive(Clone, Debug, PartialEq, Eq)]
pub struct Sound {
    pub data: Vec<i16>,
    pub sample_rate: u32,
    pub channels: u8,
}

/// The whole milliseconds that `samples` samples last at `sample_rate`
/// hertz. A quotient that no `u64` holds, and the quotient by a rate of zero,
/// count as the largest duration there is.
pub open spec fn duration_of(samples: nat, sample_rate: u32) -> u64 {
    if sample_rate == 0 || samples * 1000 / (sample_rate as nat) > u64::MAX {
        u64::MAX
    } else {
        (samples * 1000 / (sample_rate as nat)) as u64
    }
}

impl Sound {
    /// How long the sound lasts, in whole milliseconds: the number of samples
    /// over the sample rate.
    pub fn duration(&self) -> (r: u64)
        ensures
            r == duration_of(self.data@.len(), self.sample_rate),
    {
        if self.sample_rate == 0 {
            return u64::MAX;
        }
        let samples: u128 = self.data.len() as u128;
        assert(samples * 1000 <= 0xffff_ffff_ffff_ffff * 1000) by (nonlinear_arith)
            requires
                samples <= 0xffff_ffff_ffff_ffff,
        ;
        let quotient: u128 = samples * 1000 / (self.sample_rate as u128);
        if quotient > u64::MAX as u128 {
            u64::MAX
        } else {
            quotient as u64
        }
    }
}

/// What was found under a sound's name: a sound decoded as a whole, or a
/// stream that has been opened and is held by the caller.
#[derive(Debug, PartialEq, Eq)]
pub enum LoadedSound {
    Static(Sound),
    Streaming,
}

/// The samples of all packets, one packet after the other.
pub open spec fn joined(packets: Seq<Vec<i16>>) -> Seq<i16>
    decreases packets.len(),
{
    if packets.len() == 0 {
        Seq::empty()
    } else {
        joined(packets.drop_last()) + packets.last()@
    }
}

/// Whether a file of `size` bytes is streamed: it is when it is larger than
/// `streaming_size`; one that is not is decoded as a whole.
pub fn load_combined(size: u64, streaming_size: u64) -> (streaming: bool)
    ensures
        streaming == (size > streaming_size),
{
    size > streaming_size
}

/// Makes a sound of what a decoder read from the file at `path`: the
/// header's channel count and sample rate, and the decoded packets in order.
/// A sound of more than two channels is refused.
pub fn load_ogg(path: String, channels: u8, sample_rate: u32, packets: &Vec<Vec<i16>>) -> (r: LoadResult<
    Sound,
>)
    ensures
        channels > 2 ==> r == Err::<Sound, LoadError>(
            LoadError { path, reason: LoadErrorReason::TooManyChannels },
        ),
        channels <= 2 ==> r is Ok && r->Ok_0.data@ == joined(packets@) && r->Ok_0.sample_rate
            == sample_rate && r->Ok_0.channels == channels,
{
    if channels > 2 {
        return Err(LoadError { path, reason: LoadErrorReason::TooManyChannels });
    }
    let mut data: Vec<i16> = Vec::new();
    let mut i: usize = 0;
    while i < packets.len()
        invariant
            i <= packets.len(),
            data@ == joined(packets@.take(i as int)),
        decreases packets.len() - i,
    {
        let ghost before = data@;
        let mut k: usize = 0;
        while k < packets[i].len()
            invariant
                i < packets.len(),
                k <= packets[i as int].len(),
                data@ == before + packets[i as int]@.take(k as int),
            decreases packets[i as int].len() - k,
        {
            data.push(packets[i][k]);
            proof {
                assert(packets[i as int]@.take(k as int + 1) =~= packets[i as int]@.take(k as int).push(
                    packets[i as int]@[k as int],
                ));
            }
            k = k + 1;
        }
        proof {
            assert(packets[i as int]@.take(k as int) =~= packets[i as int]@);
            assert(packets@.take(i as int + 1).drop_last() =~= packets@.take(i as int));
        }
        i = i + 1;
    }
    proof {
        assert(packets@.take(i as int) =~= packets@);
    }
    Ok(Sound { data, sample_rate, channels })
}

} // verus!
