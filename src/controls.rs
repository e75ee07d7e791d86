//! The per-call audio switches: microphone and speaker mute, and noise
//! reduction on each path.
use vstd::prelude::*;

verus! {

#[derive(Debug, Clone, Copy, PartialEq, Eq, Structural)]
pub struct AudioControls {
    pub mic_muted: bool,
    pub speaker_muted: bool,
    pub mic_denoise: bool,
    pub speaker_denoise: bool,
}

/// The controls with microphone mute flipped.
pub open spec fn toggled_mic(c: AudioControls) -> AudioControls {
    AudioControls { mic_muted: !c.mic_muted, ..c }
}

/// The controls with speaker mute flipped.
pub open spec fn toggled_speaker(c: AudioControls) -> AudioControls {
    AudioControls { speaker_muted: !c.speaker_muted, ..c }
}

/// The controls with microphone noise reduction flipped.
pub open spec fn toggled_denoise(c: AudioControls) -> AudioControls {
    AudioControls { mic_denoise: !c.mic_denoise, ..c }
}

impl AudioControls {
    /// Everything on: nothing muted, no noise reduction.
    pub fn new() -> (r: AudioControls)
        ensures
            !r.mic_muted && !r.speaker_muted && !r.mic_denoise && !r.speaker_denoise,
    {
        AudioControls { mic_muted: false, speaker_muted: false, mic_denoise: false, speaker_denoise: false }
    }

    /// Flip microphone mute; returns the new state.
    pub fn toggle_mic_mute(&mut self) -> (r: bool)
        ensures
            *final(self) == toggled_mic(*old(self)),
            r == final(self).mic_muted,
    {
        self.mic_muted = !self.mic_muted;
        self.mic_muted
    }

    /// Flip speaker mute; returns the new state.
    pub fn toggle_speaker_mute(&mut self) -> (r: bool)
        ensures
            *final(self) == toggled_speaker(*old(self)),
            r == final(self).speaker_muted,
    {
        self.speaker_muted = !self.speaker_muted;
        self.speaker_muted
    }

    /// Flip microphone noise reduction; returns the new state.
    pub fn toggle_noise_reduce(&mut self) -> (r: bool)
        ensures
            *final(self) == toggled_denoise(*old(self)),
            r == final(self).mic_denoise,
    {
        self.mic_denoise = !self.mic_denoise;
        self.mic_denoise
    }

    pub fn set_noise_reduce(&mut self, enabled: bool)
        ensures
            *final(self) == (AudioControls { mic_denoise: enabled, ..*old(self) }),
    {
        self.mic_denoise = enabled;
    }

    pub fn set_speaker_noise_reduce(&mut self, enabled: bool)
        ensures
            *final(self) == (AudioControls { speaker_denoise: enabled, ..*old(self) }),
    {
        self.speaker_denoise = enabled;
    }
}

/// Each toggle undoes itself: toggling twice restores every switch, and
/// the second toggle reports the state from before the first.
pub proof fn lemma_toggles_involutive(c: AudioControls)
    ensures
        toggled_mic(toggled_mic(c)) == c,
        toggled_speaker(toggled_speaker(c)) == c,
        toggled_denoise(toggled_denoise(c)) == c,
        toggled_mic(toggled_mic(c)).mic_muted == c.mic_muted,
        toggled_speaker(toggled_speaker(c)).speaker_muted == c.speaker_muted,
        toggled_denoise(toggled_denoise(c)).mic_denoise == c.mic_denoise,
{
}

} // verus!
