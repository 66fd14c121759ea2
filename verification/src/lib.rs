//! The accounting core of a creator economy: a registry of content and who
//! made it, a payment processor that splits every payment between creator
//! and platform, a revenue ledger of what creators earned and withdrew, and a
//! manager of timed subscriptions.
//!
//! Each component is a value that owns its state. An operation takes the
//! caller whose identity the host has proved and, where it needs one, the
//! time; it either changes the component and hands back what to publish and
//! which tokens to move, or refuses and leaves the component as it was.
//! Storing the components, proving callers, moving tokens and telling the
//! time are the host's part.

pub mod address;
pub mod content_nft;
pub mod error;
pub mod events;
pub mod fees;
pub mod keyed;
pub mod payment;
pub mod revenue;
pub mod subscription;
