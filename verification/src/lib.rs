//! Secret storage for the JurisDesk desktop shell: one secret per
//! (service, key) pair, persisted by the host operating system's credential
//! manager. The store's semantics — overwrite on set, absence read as a plain
//! `None`, deletion of an absent entry counted as success — are stated over a
//! map model and proved.

pub mod model;
pub mod store;
