//! Core of the overseer: the part of a node that keeps track of the active leaves of the
//! chain, tells the subsystems about every change of that set, and answers whoever waits
//! for a block to become active.

pub mod dispatch;
pub mod error;
pub mod event;
pub mod handler;
pub mod laws;
pub mod leaf_laws;
pub mod leaf_map;
pub mod listeners;
pub mod message_laws;
pub mod metrics;
pub mod overseer;
pub mod primitives;
pub mod run;
pub mod signal;
pub mod state;
pub mod subsystems;

pub use crate::event::{Event, ExternalRequest};
pub use crate::handler::{forward_events, Handler};
pub use crate::overseer::{HeadSupportsParachains, Overseer, Reaction};
pub use crate::primitives::BlockInfo;
