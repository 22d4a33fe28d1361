//! Maidenhead grid locators: validation, normalization and conversion to the
//! south-west corner of the encoded cell, plus a callsign prefix lookup.

pub mod callsign;
pub mod locator;
