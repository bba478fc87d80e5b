//! A deterministic, grid-based operator-automaton simulator.
//!
//! A rectangular field of slots, each holding at most one operator symbol,
//! is advanced one synchronous tick at a time. During a tick the field is
//! scanned in row-major order; each occupied, unlocked slot dispatches the
//! behavior registered for its symbol, which may move, erase, or destroy
//! operators and may lock slots so they are not acted on again within the
//! same tick.

pub mod codec;
pub mod field;
pub mod grid;
pub mod laws;
pub mod opdef;
pub mod point;
pub mod sim;
pub mod slot;
