//! A marker that keeps the conversion traits to the float types of this
//! crate.

use vstd::prelude::*;

use crate::floats::{F16, F24, F32, F40, F48, F56, F64, F8};
use crate::packed::PackedFloat;

verus! {

pub trait Sealed {

}

impl Sealed for F8 {

}

impl Sealed for F16 {

}

impl Sealed for F24 {

}

impl Sealed for F32 {

}

impl Sealed for F40 {

}

impl Sealed for F48 {

}

impl Sealed for F56 {

}

impl Sealed for F64 {

}

impl Sealed for PackedFloat {

}

} // verus!
