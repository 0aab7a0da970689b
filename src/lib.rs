//! Resource record sets for an authoritative DNS engine: the records that share
//! one owner name and type, updated under the rules of dynamic update, with
//! signature selection on the read path.
pub mod name;
pub mod rdata;
pub mod record;
pub mod rr_set;
pub mod rr_set_laws;
pub mod tcp_client_connection;
