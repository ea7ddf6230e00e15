//! The rules by which the engine decides.

pub mod attrition;
pub mod classify;
pub mod geometry;
pub mod strategy;
