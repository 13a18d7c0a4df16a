//! A weekly quota planner for a compact title-bar overlay.

pub mod bars;
pub mod calendar;
pub mod color;
pub mod labels;
pub mod locale;
pub mod model;
pub mod overlay;
pub mod percent;
pub mod planner;
pub mod planner_laws;
pub mod quota_bar;
pub mod reading_laws;
pub mod runtime;
pub mod settings;
pub mod text;
pub mod worker;
