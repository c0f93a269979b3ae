//! A micro-benchmarking harness for code that runs inside a sandboxed guest.
//!
//! The guest side is an engine ([`engine::Bencher`]) that takes one benchmark
//! case through prepare, measurement and verification, and an export bridge
//! ([`export::Exporter`]) that takes every registered benchmark through the
//! engine in declaration order. Neither ever calls a procedure or reads the
//! resource meter itself: each names the next thing to do as an
//! [`protocol::Action`] and is told what came of it as an
//! [`protocol::Event`]. Whoever embeds the engine performs the actions.
//! [`engine::benchmarkable`] is the one exception: handed a meter and a body
//! as closures, it brackets one call of the body with the two hooks.
//!
//! [`wire`] frames what the guest hands back, [`panic_bridge`] is what the
//! guest does when it fails beyond recovery, and [`host`] is the host side:
//! build, invoke, decode, and merge the results with the caller's metadata.
//! [`system`] states what the parts give together.

pub mod protocol;
pub mod result;
pub mod engine;
pub mod export;
pub mod wire;
pub mod panic_bridge;
pub mod host;
pub mod system;

pub use crate::engine::{benchmarkable, BenchCase, Bencher, Phase};
pub use crate::export::{Exporter, Status};
pub use crate::host::{
    conclude, merge, Descriptor, HostAction, HostDriver, HostError, HostEvent, HostPhase, Report,
};
pub use crate::panic_bridge::{BridgeAction, PanicBridge};
pub use crate::protocol::{Action, Event, Failure, Stage};
pub use crate::result::BenchResult;
pub use crate::system::respond;
pub use crate::wire::{decode, encode, encode_failure, encode_results, Response};
