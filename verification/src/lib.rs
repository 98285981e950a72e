//! A skeletal-animation runtime core: skeleton hierarchies, bone transform
//! blending, keyframe track sampling, and the animation mixer that schedules
//! cycles and actions each simulation tick.
//!
//! All scalar quantities (seconds, blend weights, coordinates, quaternion
//! components) are fixed-point numbers with six decimal places carried in
//! `i64`, so that every arithmetic step has an exact, machine-checked
//! contract. The host application converts to and from its own scalar
//! representation at the boundary.
#![allow(non_snake_case)]
#![allow(non_camel_case_types)]
#![allow(dead_code)]

pub mod animation;
pub mod bone;
pub mod bounding;
pub mod coreanimation;
pub mod corebone;
pub mod corematerial;
pub mod coremodel;
pub mod coreskeleton;
pub mod fileformat;
pub mod graphics;
pub mod keyframe;
pub mod mixer;
pub mod model;
pub mod scalar;
pub mod skeleton;
pub mod submesh;
pub mod track;
pub mod vector;
