//! Keeping track of how far the music has played, by counting samples.

use vstd::prelude::*;

verus! {

/// What is known of a stream of samples while it plays: how many samples make
/// a second, on how many channels.
#[derive(Clone, Copy, Debug)]
pub struct DecoderExecution {
    sample_rate: u32,
    channels: u16,
}

/// Counts the samples of a stream as they are played, and says when the count
/// is to be made known.
#[derive(Clone, Copy, Debug)]
pub struct SampleCounter {
    samples_played: u32,
    shared_update_rate: u32,
}

/// The playback position after `samples_played` samples, in microseconds,
/// rounded down.
pub open spec fn play_time_micros(samples_played: int, sample_rate: int, channels: int) -> int {
    samples_played * 1_000_000 / (sample_rate * channels)
}

/// After how many samples the count is made known: about every millisecond,
/// and at least after every sample.
pub open spec fn update_rate(sample_rate: int) -> int {
    if sample_rate / 1000 >= 1 {
        sample_rate / 1000
    } else {
        1
    }
}

impl DecoderExecution {
    /// The stream has samples and channels.
    #[verifier::type_invariant]
    pub closed spec fn wf(&self) -> bool {
        self.sample_rate > 0 && self.channels > 0
    }

    /// The samples that make a second.
    pub closed spec fn spec_sample_rate(&self) -> u32 {
        self.sample_rate
    }

    /// The number of channels.
    pub closed spec fn spec_channels(&self) -> u16 {
        self.channels
    }

    /// What is known of a stream with `sample_rate` samples per second on
    /// `channels` channels; `None` for a stream without samples or channels.
    pub fn new(sample_rate: u32, channels: u16) -> (execution: Option<DecoderExecution>)
        ensures
            execution is Some <==> sample_rate > 0 && channels > 0,
            execution matches Some(e) ==> e.spec_sample_rate() == sample_rate
                && e.spec_channels() == channels,
    {
        if sample_rate > 0 && channels > 0 {
            Some(DecoderExecution { sample_rate, channels })
        } else {
            None
        }
    }

    /// The playback position after `samples_played` samples, in microseconds.
    pub fn play_time(&self, samples_played: u32) -> (micros: u64)
        ensures
            micros as int == play_time_micros(
                samples_played as int,
                self.spec_sample_rate() as int,
                self.spec_channels() as int,
            ),
    {
        proof {
            use_type_invariant(self);
        }
        let rate: u64 = self.sample_rate as u64;
        let channels: u64 = self.channels as u64;
        assert(0 < rate * channels <= 0xFFFF_FFFF * 0xFFFF) by (nonlinear_arith)
            requires
                0 < rate <= 0xFFFF_FFFF,
                0 < channels <= 0xFFFF,
        ;
        (samples_played as u64 * 1_000_000) / (rate * channels)
    }
}

impl SampleCounter {
    /// The count stands at a sample that was played, and is made known at
    /// least after every sample.
    #[verifier::type_invariant]
    pub closed spec fn wf(&self) -> bool {
        self.shared_update_rate > 0
    }

    /// The samples played so far.
    pub closed spec fn played(&self) -> u32 {
        self.samples_played
    }

    /// After how many samples the count is made known.
    pub closed spec fn rate(&self) -> u32 {
        self.shared_update_rate
    }

    /// A counter for a stream of `sample_rate` samples per second, at zero.
    pub fn new(sample_rate: u32) -> (counter: SampleCounter)
        ensures
            counter.played() == 0,
            counter.rate() as int == update_rate(sample_rate as int),
    {
        let per_millisecond: u32 = sample_rate / 1000;
        SampleCounter {
            samples_played: 0,
            shared_update_rate: if per_millisecond >= 1 {
                per_millisecond
            } else {
                1
            },
        }
    }

    /// Counts one more sample. Returns the count where it is to be made
    /// known: at every multiple of the update rate.
    pub fn advance(&mut self) -> (publish: Option<u32>)
        requires
            old(self).played() < u32::MAX,
        ensures
            final(self).played() == old(self).played() + 1,
            final(self).rate() == old(self).rate(),
            publish == if final(self).played() as int % final(self).rate() as int == 0 {
                Some(final(self).played())
            } else {
                None
            },
    {
        proof {
            use_type_invariant(&*self);
        }
        self.samples_played = self.samples_played + 1;
        if self.samples_played % self.shared_update_rate == 0 {
            Some(self.samples_played)
        } else {
            None
        }
    }
}

} // verus!
