//! Errors the engine can return to its caller.  Bus and transport
//! failures are the adapter's business; the engine itself only rejects a
//! second initialization and malformed icon payloads.

use vstd::prelude::*;

verus! {

/// Why a publish or setup call was rejected.
#[derive(Clone, Copy, Debug, PartialEq, Eq, Structural)]
pub enum TrayError {
    /// A second setup attempt; the running instance is unaffected.
    AlreadyInitialized,
    /// An icon with a zero width or height.
    IconZeroSize,
    /// An icon wider or taller than the wire's 32-bit signed limit.
    IconOversize,
    /// An icon byte buffer whose length is not `width * height * 4`.
    IconLengthMismatch,
}

impl TrayError {
    /// A short human-readable account of the error.
    pub fn describe(&self) -> (r: &'static str)
        ensures
            r@.len() > 0,
    {
        let r = match self {
            TrayError::AlreadyInitialized => "tray already initialized",
            TrayError::IconZeroSize => "icon has zero size",
            TrayError::IconOversize => "icon dimensions exceed the wire limit",
            TrayError::IconLengthMismatch => "icon byte length does not match its dimensions",
        };
        proof {
            reveal_strlit("tray already initialized");
            reveal_strlit("icon has zero size");
            reveal_strlit("icon dimensions exceed the wire limit");
            reveal_strlit("icon byte length does not match its dimensions");
        }
        r
    }
}

} // verus!
