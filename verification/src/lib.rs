//! Verified core of a cycling virtual-elevation analyzer.
//!
//! The crate decodes Garmin FIT activity streams into integer-valued
//! records and laps, derives parsing statistics, computes atmospheric
//! quantities in fixed-point arithmetic, and parses the textual sidecars
//! (world files, SRTM-style file names, WKT projection text) that
//! accompany a digital elevation model.

pub mod atmosphere;
pub mod dem_text;
pub mod fit_decoder;
pub mod fixed;
pub mod fit_parser;
pub mod fit_values;
pub mod fitparser_wrapper;
pub mod projection;
pub mod validator;
pub mod wire;
