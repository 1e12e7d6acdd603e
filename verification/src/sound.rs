//! The loaded state of a custom completion sound: a buffer of samples, its
//! sample rate, and whether a sound is ready to play.  Decoding a sound file
//! and playing samples belong to the audio collaborator; this type only keeps
//! what it handed over.

use vstd::prelude::*;

verus! {

/// The sample rate used until a decoded sound replaces it.
pub const SAMPLE_RATE: u32 = 44100;

/// A decoded completion sound, or the not-ready placeholder.
#[derive(Debug)]
pub struct SoundFile {
    buffer: Vec<i16>,
    sample_rate: u32,
    ready: bool,
}

impl SoundFile {
    /// The decoded samples.
    pub closed spec fn spec_buffer(self) -> Seq<i16> {
        self.buffer@
    }

    /// The samples' rate.
    pub closed spec fn spec_sample_rate(self) -> u32 {
        self.sample_rate
    }

    /// Whether a decoded sound is ready to play.
    pub closed spec fn spec_ready(self) -> bool {
        self.ready
    }

    /// A sound slot with nothing loaded.
    pub fn new() -> (r: SoundFile)
        ensures
            !r.spec_ready(),
            r.spec_buffer().len() == 0,
            r.spec_sample_rate() == SAMPLE_RATE,
    {
        SoundFile { buffer: Vec::new(), sample_rate: SAMPLE_RATE, ready: false }
    }

    /// Whether a decoded sound is ready to play.
    pub fn is_ready(&self) -> (r: bool)
        ensures
            r == self.spec_ready(),
    {
        self.ready
    }

    /// Take over a decoded sound; it is ready from here on.
    pub fn set_samples(&mut self, buffer: Vec<i16>, sample_rate: u32)
        ensures
            final(self).spec_buffer() == buffer@,
            final(self).spec_sample_rate() == sample_rate,
            final(self).spec_ready(),
    {
        self.buffer = buffer;
        self.sample_rate = sample_rate;
        self.ready = true;
    }

    /// Drop readiness, as when a load begins or fails; the old samples stay
    /// until a new sound replaces them.
    pub fn mark_not_ready(&mut self)
        ensures
            final(self).spec_buffer() == old(self).spec_buffer(),
            final(self).spec_sample_rate() == old(self).spec_sample_rate(),
            !final(self).spec_ready(),
    {
        self.ready = false;
    }

    /// The decoded samples.
    pub fn samples(&self) -> (r: &Vec<i16>)
        ensures
            r@ == self.spec_buffer(),
    {
        &self.buffer
    }

    /// The samples' rate.
    pub fn sample_rate(&self) -> (r: u32)
        ensures
            r == self.spec_sample_rate(),
    {
        self.sample_rate
    }
}

} // verus!
