//! Rewrites SVG icons into the single-path form that fontello fonts expect,
//! and maintains fontello configuration data.
pub mod text;
pub mod pattern;
pub mod xml;
pub mod repair;
pub mod fontello_data;
pub mod json;
pub mod args;
pub mod utils;
pub mod js;
