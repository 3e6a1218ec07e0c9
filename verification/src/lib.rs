//! A marketplace for assets whose ownership is kept by an independent
//! registry service.
//!
//! Sellers list assets at a price; buyers purchase them through a saga that
//! reserves the listing, invokes the registry's ownership transfer, and
//! either completes the sale or compensates by reactivating the listing.
//! The purchase flow is split into a synchronous prepare step and a resolve
//! step so that the suspension point of the remote call, and the operations
//! that may interleave with it, are explicit.

pub mod identity;
pub mod model;
pub mod idgen;
pub mod store;
pub mod market;
pub mod text;
pub mod laws;
