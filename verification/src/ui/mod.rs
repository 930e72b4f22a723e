//! The web interface: what each request means to the engine, and what it is
//! answered.

pub mod laws;
pub mod logs;
pub mod routes;
pub mod session;
