//! A verified orbital kinematics engine.
//!
//! The engine works throughout in fixed-point integer arithmetic: distances
//! and times are carried in millionths of their unit (micro-astronomical
//! units, micro-years), dimensionless ratios such as the eccentricity in
//! millionths, and angles in arcseconds (1 296 000 arcseconds to the full
//! turn). Every quantity is therefore a plain `i64` with exact, provable
//! semantics.

pub mod units;
pub mod trig;
pub mod geometry;
pub mod table;
pub mod kepler;
pub mod lookup;
pub mod sampler;
pub mod colour;
pub mod body;
pub mod animation;
pub mod projection;
pub mod spiro;
pub mod scene;
pub mod regression;
pub mod tasks;
