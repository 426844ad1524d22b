//! Helpers for particular instruments.

pub mod strings;
