//! Typed publish/subscribe messaging between a catalog service and an order
//! service, with an in-process fan-out broadcaster and the stock-reservation
//! protocol built on top of it.
//!
//! The broker itself, HTTP route wiring and process bootstrap are external
//! collaborators; this crate holds the envelope data model, the canonical
//! wire format, the fan-out pump, the stores and the coordinator logic.

pub mod bus;
pub mod catalog_db;
pub mod catalog_service;
pub mod event;
pub mod events;
pub mod listener;
pub mod listener_service;
pub mod order_db;
pub mod order_service;
pub mod text;
pub mod topic;
pub mod wire;
