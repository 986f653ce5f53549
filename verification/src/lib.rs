//! Core of a joystick bridge: a physical stick on one host drives a virtual
//! stick on another over UDP.
//!
//! The sending side folds raw input events into a [`state::SharedState`],
//! scales its axes with [`axis::normalize_axis`] and frames it with
//! [`wire::encode_vkb2`]. The receiving side parses frames with
//! [`wire::decode_vkb2`], filters them through a
//! [`sequence::SequenceTracker`] and turns what is accepted into writes for
//! the virtual device ([`apply::Receiver`]).

pub mod apply;
pub mod axis;
pub mod bits;
pub mod buttons;
pub mod codes;
pub mod devices;
pub mod hat;
pub mod multi;
pub mod sender;
pub mod sequence;
pub mod state;
pub mod wire;
