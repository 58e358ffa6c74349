//! Relay and correlation core of a local media server: a session broker, a
//! correlation table for requests that are answered out of band, HTTP range
//! resolution for media files, and the decisions of a LAN discovery sweep.

pub mod content_type;
pub mod discovery;
pub mod envelope;
pub mod gateway;
pub mod media;
pub mod session;
pub mod text;
