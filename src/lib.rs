//! Lofting and spiling for lapstrake hulls: the exact, table-level part of
//! turning measured stations into fair curves and flat plank patterns.
pub mod error;
pub mod unit;
pub mod spec;
pub mod hull;
pub mod spline;
pub mod plank;
pub mod style;
pub mod load;
