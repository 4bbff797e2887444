//! Verified decision logic of the zflow input-sharing service.
//!
//! Every rule that decides what is captured, mapped, injected, negotiated or
//! released lives here with a contract. Devices, sockets, windows and clocks
//! belong to the application around this library, which hands plain values in
//! and carries out the actions that come back.
use vstd::prelude::*;

pub mod address_text;
pub mod capture;
pub mod codes;
pub mod config;
pub mod desktop;
pub mod gui;
pub mod identity;
pub mod input;
pub mod key_names;
pub mod linux;
pub mod lists;
pub mod macos;
pub mod metrics;
pub mod net;
pub mod ordered;
pub mod pairing;
pub mod paths;
pub mod peer_view;
pub mod random;
pub mod runtime;
pub mod scan;
pub mod session;
pub mod text;

verus! {

} // verus!
