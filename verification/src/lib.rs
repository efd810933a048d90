//! The logic of a launcher whose window shows a virtual machine's display: the shape the
//! guest is asked for, the pointer and keys it is sent, the frames it hands back and the ring
//! of surfaces they land in, and the settings it boots with.
use vstd::prelude::*;

pub mod display;
pub mod dump;
pub mod frame;
pub mod geometry;
pub mod grab;
pub mod host;
pub mod input;
pub mod qemu;
pub mod resize;
pub mod rounding;
pub mod ring;
pub mod session;
pub mod settings;
pub mod text;

verus! {

} // verus!
