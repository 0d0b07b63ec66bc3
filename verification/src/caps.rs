use vstd::prelude::*;

verus! {

/// The raw audio format every source is coerced to before mixing.
#[derive(Clone, Copy)]
pub struct AudioCapsChoice {
    pub rate: i32,
    pub channels: i32,
    pub layout: &'static str,
}

/// The mix format: 48 kHz, stereo, interleaved samples.
pub fn mix_format_choice() -> (caps: AudioCapsChoice)
    ensures
        caps.rate == 48_000,
        caps.channels == 2,
        caps.layout@ == "interleaved"@,
{
    AudioCapsChoice { rate: 48_000, channels: 2, layout: "interleaved" }
}

} // verus!
