//! Lifecycle management of network endpoints.

pub mod io;
pub mod net;
pub mod stream;
pub mod service;
