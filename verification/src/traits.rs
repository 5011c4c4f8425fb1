//! Reading records from bytes and writing them back.
use vstd::prelude::*;
use crate::error::Error;

verus! {

/// A record that can be decoded from the start of a byte buffer.
pub trait TryRead<'a>: Sized {
    fn try_read(data: &'a [u8]) -> Result<Self, Error>;
}

/// A record that can be encoded at the start of a byte buffer.
pub trait TryWrite {
    fn try_write(&self, data: &mut [u8]) -> Result<usize, Error>;
}

/// A parse result with the value replaced by its view.
pub open spec fn view_result<T: View>(r: Result<T, Error>) -> Result<T::V, Error> {
    match r {
        Ok(v) => Ok(v@),
        Err(e) => Err(e),
    }
}

} // verus!
