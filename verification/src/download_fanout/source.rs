//! What a source tells about itself.

use vstd::prelude::*;

verus! {

/// A source that can tell something about itself while it is kept.
pub trait GetInfo<'a, Info> {
    /// What there is to tell.
    fn get_info(&'a self) -> Info where Info: 'a;
}

impl<T> GetInfo<'_, ()> for T {
    fn get_info(&self) -> () {
        ()
    }
}

/// A source that can be turned into what there is to tell about it.
pub trait IntoInfo<Info> {
    /// What there is to tell.
    fn into_info(self) -> Info;
}

impl<T> IntoInfo<()> for T {
    fn into_info(self) -> () {
        ()
    }
}

} // verus!
