//! Command resolution and dispatch core of a client for remote advisor
//! service instances.

pub mod cell;
pub mod command;
pub mod dispatch;
pub mod error;
pub mod params;
pub mod registry;
pub mod render;
pub mod text;
