//! The binary wire protocol: one message per frame, a single leading
//! type-tag byte (1-based) selecting the variant, fixed-width fields after
//! it, no length prefixes and no version field.

pub mod error;
pub mod forward;
pub mod c2s;
pub mod s2c;
