//! The DynamoDB driver's logic: command envelopes, key handling, error
//! classification and the driver's supported-flow catalogue.
pub mod attr;
pub mod driver;
pub mod envelope;
pub mod errors;
pub mod generator;
pub mod items;
pub mod keys;
pub mod service;
pub mod values;
