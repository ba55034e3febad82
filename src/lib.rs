//! Chapter lifecycle of a course platform: creation, ordering, publication,
//! progress tracking and the video asset linked to each chapter.
//!
//! The store is held in memory as a [`store::Db`]; the operations live on
//! [`chapters::Chapters`]. Values that come from outside (fresh ids, the time,
//! replies of the video provider) are handed in by the caller.
pub mod chapters;
pub mod error;
pub mod laws;
pub mod mux_data;
pub mod records;
pub mod store;
pub mod stripe_customer;
pub mod update;
