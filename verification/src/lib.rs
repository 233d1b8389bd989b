//! Wire-format encoders for programmable macro keypads.
//!
//! A binding names a layer, a physical key and the macro the key should
//! produce. Each supported device family turns a binding into an ordered list
//! of frames; this crate computes those frames, byte for byte, and proves that
//! they are the ones the wire format of the family asks for. Writing the
//! frames to a device is left to the caller, who takes them from the encoder
//! in the order in which they are to be written.

pub mod keyboard;
