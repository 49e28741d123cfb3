//! Identifiers of the sound effects that messages ask for.
use vstd::prelude::*;

verus! {

/// A sound effect.
#[derive(Clone, Copy, Debug, PartialEq, Eq, Structural)]
pub enum SfxId {
    Void,
    Jump,
    HookFire,
    Ungh,
    Step,
    Stomp,
    Bomb,
    Pock,
    Tock,
    LevelUp,
    Punch,
    PunchMiss,
}

impl Default for SfxId {
    /// No sound.
    fn default() -> (r: Self)
        ensures
            r == SfxId::Void,
    {
        SfxId::Void
    }
}

} // verus!
