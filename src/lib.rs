//! Bridges a pad-and-knob control surface to a remote production session:
//! raw device messages are normalized into semantic inputs, resolved against a
//! declarative mapping, and turned into remote commands against a cache of the
//! active scene.

pub mod input;
pub mod device;
pub mod action;
pub mod mapping;
pub mod scene;
pub mod controller;
