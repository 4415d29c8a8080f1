//! Kinematic collide-and-slide resolution for a swept character shape, on
//! integer fixed-point geometry. The sweep test itself is performed by the
//! caller: the resolver states which sweep it needs and consumes the hit.

pub mod fixed;
pub mod slide;
pub mod ground;
pub mod controller;
