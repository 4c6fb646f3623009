//! The decision logic of a pen and touch bridge: which browser clients may
//! drive the local pointer, how the pairing PIN is kept and checked, which
//! touch contacts are down, and what each pointer event asks the host to inject.
//! Device access, networking and the window shell live outside this crate.

pub mod text;
pub mod sessions;
pub mod touch;
pub mod pen;
pub mod bridge;
pub mod laws;
