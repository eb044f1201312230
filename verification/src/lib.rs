//! Change-data-capture source library for PostgreSQL logical replication.
//!
//! The crate decodes the `pgoutput` binary change-record format into
//! structured [`decoder::Change`] events, maintains the relation metadata
//! cache that tuple decoding depends on, and tracks the acknowledgment
//! state of a replication session.  Everything here is verified; the
//! surrounding process (connection handling, publishing) lives outside.

pub mod decoder;
pub mod encoder;
pub mod lsn;
pub mod output;
pub mod replication;
pub mod text;
pub mod wire;
