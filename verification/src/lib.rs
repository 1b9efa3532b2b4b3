//! Identifier-keyed dispatch of interactions to per-route handler pipelines,
//! with the decisions of every stage stated and proved.
//!
//! The asynchronous work itself (polling, awaiting a handler, decoding a
//! payload) is done by the caller; this library decides what is to be done
//! next and with which handle.
pub mod command_model_layer;
pub mod interaction;
pub mod layer;
pub mod readiness;
pub mod routing;
pub mod state;
