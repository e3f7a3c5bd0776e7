//! The load/save unit: one value bound to one file location.
//!
//! A `Persistable` performs no I/O of its own. Loading takes the outcome of
//! the caller's attempt to read the state file and decodes it; saving
//! produces the bytes the caller must write to the location. Everything in
//! between is verified against the codec contract of [`Saveable`].

use vstd::prelude::*;
use crate::errors::StateError;
use crate::saveable::Saveable;

verus! {

/// A value of `T` bound to the file location it is persisted at.
pub struct Persistable<T> {
    location: String,
    value: T,
}

impl<T: Saveable> Persistable<T> {
    /// The location this value is bound to.
    pub closed spec fn spec_location(&self) -> Seq<char> {
        self.location@
    }

    /// The current in-memory payload.
    pub closed spec fn spec_value(&self) -> T {
        self.value
    }

    /// Binds a fresh default value to `location` without any I/O.
    pub fn new(location: String) -> (r: Self)
        ensures
            r.spec_location() == location@,
            r.spec_value() == T::default_spec(),
    {
        Persistable { location, value: T::default_value() }
    }

    /// Decodes the outcome of reading the file at `location`.
    ///
    /// A read failure is passed through unchanged; readable but malformed
    /// content is a `DecodeError`; well-formed content yields the decoded
    /// value bound to `location`.
    pub fn load(location: String, read: Result<Vec<u8>, StateError>) -> (r: Result<Self, StateError>)
        ensures
            match read {
                Ok(bytes) => match T::parse_spec(bytes@) {
                    Some(v) => {
                        &&& r matches Ok(p)
                        &&& p.spec_location() == location@
                        &&& p.spec_value() == v
                    },
                    None => r matches Err(e) && e == StateError::DecodeError,
                },
                Err(e) => r matches Err(e2) && e2 == e,
            },
    {
        match read {
            Ok(bytes) => match T::parse(&bytes) {
                Some(v) => Ok(Persistable { location, value: v }),
                None => Err(StateError::DecodeError),
            },
            Err(e) => Err(e),
        }
    }

    /// Produces the bytes that must be written to `location` to persist the
    /// current value, or the failure of rendering it.
    pub fn save(&self) -> (r: Result<Vec<u8>, StateError>)
        ensures
            self.spec_value().renderable() ==> (r matches Ok(b) && b@ == self.spec_value().rendering()),
            !self.spec_value().renderable() ==> (r matches Err(e) && e == StateError::EncodeError),
    {
        self.value.render()
    }

    /// The location this value is bound to, for the caller performing the
    /// actual reads and writes.
    pub fn location(&self) -> (r: &String)
        ensures
            r@ == self.spec_location(),
    {
        &self.location
    }

    /// Direct read access to the payload.
    pub fn current(&self) -> (r: &T)
        ensures
            *r == self.spec_value(),
    {
        &self.value
    }

    /// Direct write access to the payload.
    pub fn current_mut(&mut self) -> (r: &mut T)
        ensures
            *r == old(self).spec_value(),
            final(self).spec_value() == *final(r),
            final(self).spec_location() == old(self).spec_location(),
    {
        &mut self.value
    }

    /// Swaps `new_value` in as the payload and hands the previous one back.
    pub fn replace(&mut self, new_value: T) -> (r: T)
        ensures
            r == old(self).spec_value(),
            final(self).spec_value() == new_value,
            final(self).spec_location() == old(self).spec_location(),
    {
        let mut v = new_value;
        core::mem::swap(&mut v, &mut self.value);
        v
    }
}

} // verus!
