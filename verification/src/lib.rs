//! Commodore 64 emulator core: CPU, memory banking, VIC-II, SID, CIA and D64 parsing.
use vstd::prelude::*;

pub mod bits;
pub mod bus;
pub mod cia;
pub mod cpu;
pub mod d64;
pub mod keys;
pub mod roms;
pub mod sid;
pub mod system;
pub mod vic;
pub mod video;

verus! {

} // verus!
