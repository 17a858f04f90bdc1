//! Control-plane logic of a microVM sandbox provider.
#![allow(unused_imports)]

use vstd::prelude::*;

pub mod admission;
pub mod agent;
pub mod api;
pub mod auth;
pub mod background;
pub mod base64;
pub mod bench;
pub mod builder;
pub mod capacity;
pub mod catalog;
pub mod config;
pub mod config_example;
pub mod create;
pub mod dns;
pub mod egress;
pub mod envmap;
pub mod error;
pub mod hotpool;
pub mod ids;
pub mod images;
pub mod json;
pub mod knobs;
pub mod laws;
pub mod lifecycle;
pub mod model;
pub mod netaddr;
pub mod node;
pub mod nodes;
pub mod numeral;
pub mod order;
pub mod paths;
pub mod placement;
pub mod pricing;
pub mod registry;
pub mod runtime;
pub mod scheduler;
pub mod secrets;
pub mod service;
pub mod store;
pub mod text;
pub mod time;
pub mod usage;
pub mod views;

verus! {

} // verus!
