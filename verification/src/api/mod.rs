//! What the HTTP handlers decide, on plain values: requests as they were read,
//! and answers before they are written out.

pub mod admin;
pub mod images;
pub mod internal;
pub mod nodes;
pub mod preview;
pub mod pty;
pub mod secrets;
pub mod usage;
pub mod volumes;
