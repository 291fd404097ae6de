//! Stock tracking core: a validated, race-free stock decrement and the
//! pipeline that turns store change records into broker messages.
pub mod schema;
pub mod mutator;
pub mod translate;
pub mod publisher;
pub mod forwarder;
