//! An in-memory CRUD service core: a record store and the request
//! dispatcher that drives it, with the wire encoding of responses.

pub mod codec;
pub mod dispatch;
pub mod item;
pub mod laws;
pub mod routing;
pub mod store;
