use vstd::prelude::*;

verus! {

/// Where a voice stands in its lifecycle.
#[derive(Clone, Copy, Debug, PartialEq, Eq, Structural)]
pub enum VoiceState {
    /// Never played since it was built.
    Idle,
    /// Sounding after a note-on.
    Active,
    /// Decaying after a note-off.
    Releasing,
    /// Fully decayed.
    Off,
}

/// One note's state: the key it plays and a linear release envelope whose
/// level is the voice's output on both channels.
#[derive(Clone, Copy, Debug)]
pub struct Voice {
    pub key: u8,
    pub velocity: u8,
    pub level: u8,
    pub release_step: u8,
    pub state: VoiceState,
}

impl Voice {
    pub fn new(release_step: u8) -> (r: Voice)
        ensures
            r.key == 0,
            r.velocity == 0,
            r.level == 0,
            r.release_step == release_step,
            r.state == VoiceState::Idle,
    {
        Voice { key: 0, velocity: 0, level: 0, release_step, state: VoiceState::Idle }
    }

    /// The voice after a note-on with `key` and `velocity`.
    pub open spec fn started(self, key: u8, velocity: u8) -> Voice {
        Voice { key, velocity, level: velocity, state: VoiceState::Active, ..self }
    }

    pub fn note_on(&mut self, key: u8, velocity: u8)
        ensures
            *final(self) == old(self).started(key, velocity),
    {
        self.key = key;
        self.velocity = velocity;
        self.level = velocity;
        self.state = VoiceState::Active;
    }

    /// The voice after a note-off: a sounding voice starts its release.
    pub open spec fn released(self) -> Voice {
        if self.state == VoiceState::Active {
            Voice { state: VoiceState::Releasing, ..self }
        } else {
            self
        }
    }

    pub fn note_off(&mut self)
        ensures
            *final(self) == old(self).released(),
    {
        if self.state == VoiceState::Active {
            self.state = VoiceState::Releasing;
        }
    }

    /// The voice after one sample: a releasing voice loses `release_step`
    /// of level and is off once the level reaches zero.
    pub open spec fn advanced(self) -> Voice {
        if self.state == VoiceState::Releasing {
            let level = if self.level > self.release_step { (self.level - self.release_step) as u8 } else { 0u8 };
            Voice { level, state: if level == 0 { VoiceState::Off } else { VoiceState::Releasing }, ..self }
        } else {
            self
        }
    }

    pub fn process(&mut self)
        ensures
            *final(self) == old(self).advanced(),
    {
        if self.state == VoiceState::Releasing {
            if self.level > self.release_step {
                self.level = self.level - self.release_step;
            } else {
                self.level = 0;
                self.state = VoiceState::Off;
            }
        }
    }

    pub fn output(&self) -> (r: (i64, i64))
        ensures
            r == (self.level as i64, self.level as i64),
    {
        (self.level as i64, self.level as i64)
    }

    pub open spec fn spec_is_off(self) -> bool {
        self.state == VoiceState::Off
    }

    pub fn is_off(&self) -> (r: bool)
        ensures
            r == self.spec_is_off(),
    {
        self.state == VoiceState::Off
    }

    pub fn get_key(&self) -> (r: u8)
        ensures
            r == self.key,
    {
        self.key
    }
}

} // verus!
