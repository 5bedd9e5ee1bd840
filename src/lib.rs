//! Coordination of several instances of a target application: a registry of their windows
//! by slot, the decoding of commands that each instance shows in two pixels of its window, the
//! per-window worker that acts on them, and the observer that mirrors typed keys from the
//! focused instance to the others.

pub mod broadcast;
pub mod directory;
pub mod discovery;
pub mod handle;
pub mod input;
pub mod layout;
pub mod protocol;
pub mod title;
pub mod worker;
