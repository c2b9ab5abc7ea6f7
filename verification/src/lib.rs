//! Core of a terminal counter application: the event-to-action-to-state
//! dispatch pipeline.
//!
//! Raw terminal events are mapped to semantic actions, applied to the
//! shared state record, and fed back into the UI components for rendering.
//! The terminal backend itself (raw mode, character rendering, resize
//! detection) is an external collaborator and lives outside this library;
//! the library decides *what changes* and *when components are notified*.

pub mod action;
pub mod app;
pub mod components;
pub mod event;
pub mod event_handler;
pub mod layout;
pub mod num;
pub mod state;
