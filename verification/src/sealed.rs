//! The marker that closes the set of index shapes.

use std::ops::{Range, RangeFrom, RangeFull, RangeInclusive, RangeTo, RangeToInclusive};
use vstd::prelude::*;
use crate::index::TIndex;

verus! {

/// Only this crate can implement this trait, so only the shapes below
/// can index a view.
pub trait Sealed {

}

impl<I: TIndex> Sealed for I {

}

impl<I: TIndex> Sealed for Range<I> {

}

impl<I: TIndex> Sealed for RangeFrom<I> {

}

impl Sealed for RangeFull {

}

impl<I: TIndex> Sealed for RangeInclusive<I> {

}

impl<I: TIndex> Sealed for RangeTo<I> {

}

impl<I: TIndex> Sealed for RangeToInclusive<I> {

}

} // verus!
