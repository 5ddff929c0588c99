//! A configurable HTTP mock server core: request matching with path
//! parameters, ordered conditional responses, a JSON template expander with
//! a synthetic data generator, and a replaceable configuration store.

pub mod config;
pub mod dispatch;
pub mod faker;
pub mod json;
pub mod params;
pub mod router;
pub mod template;
