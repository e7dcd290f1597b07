//! Compact binary floating-point formats and the value types of the
//! lilliput serialization format.

pub mod be_bytes;
pub mod bits;
pub mod classify;
pub mod de;
pub mod config;
pub mod extend;
pub mod floats;
pub mod format;
pub mod narrow;
pub mod numeric_order;
pub mod ordering;
pub mod pack;
pub mod packed;
pub mod repr;
mod sealed;
pub mod ser;
pub mod text;
pub mod truncate;
pub mod value;
pub mod widen;
