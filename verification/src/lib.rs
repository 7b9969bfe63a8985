//! Verified core of a hand-held sensor gadget: fixed-width text layout,
//! a band-oriented monochrome renderer, and the sequencing rules of a
//! blocking two-wire transport.

pub mod layout;
pub mod frame;
pub mod graph;
pub mod display;
pub mod transport;
pub mod timer;
pub mod wifi;
