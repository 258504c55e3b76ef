//! Authentication core for a JSON REST backend: environment-driven
//! configuration, a token service that mints and verifies signed,
//! time-bounded bearer tokens, and a guard that decides whether a
//! request may reach a protected route.

pub mod claims;
pub mod codec;
pub mod env;
pub mod guard;
pub mod token;
