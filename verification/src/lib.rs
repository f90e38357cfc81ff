//! A one-line status summary (battery, network, time) for a minimal desktop
//! status bar: independent providers whose outcomes are rendered to text
//! fragments and joined, in the configured order, into a single line.
//!
//! The library touches neither files nor processes. [`machine::Pipeline`]
//! says which [`system::Request`] it wants answered next; whoever runs it
//! performs the request and hands in the [`system::Response`]. The providers
//! ([`battery`], [`network`], [`clock`], with [`resolver`] for their devices)
//! say what to ask and what an answer means; [`pipeline`] renders the
//! readings and joins them into the line. No failure of one provider stops
//! the others: it is shown in the line in the provider's place.
//!
//! [`openbsd`] holds the providers for OpenBSD. [`text`] and [`number`] hold
//! what all of them need of texts and numbers.

pub mod battery;
pub mod clock;
pub mod config;
pub mod machine;
pub mod network;
pub mod number;
pub mod openbsd;
pub mod outcome;
pub mod pipeline;
pub mod resolver;
pub mod system;
pub mod text;
