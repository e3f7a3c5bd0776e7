//! The codec contract that a state value must satisfy.
//!
//! A saveable value knows its default, can be duplicated, and has a
//! structured-text rendering from which it can be parsed back. The container
//! in this crate is generic over this trait: every guarantee it gives about
//! loading and persisting rests on the laws stated here, and every
//! implementation must prove them.

use vstd::prelude::*;
use crate::errors::StateError;

verus! {

/// A value that can be defaulted, duplicated, rendered to bytes, and parsed
/// back from bytes.
///
/// The rendering is canonical: `parse` recovers exactly the value that was
/// rendered (`lemma_parse_of_rendering`), which is the round-trip law the
/// persistence cycle depends on.
pub trait Saveable: Sized {
    /// The value a fresh, never-persisted state holds.
    spec fn default_spec() -> Self;

    /// Whether this value has a rendering at all.
    spec fn renderable(&self) -> bool;

    /// The canonical byte rendering of this value.
    spec fn rendering(&self) -> Seq<u8>;

    /// What parsing a byte sequence yields: the decoded value, or `None`
    /// when the bytes are malformed.
    spec fn parse_spec(data: Seq<u8>) -> Option<Self>;

    /// Round-trip law: parsing the rendering of a value yields that value.
    proof fn lemma_parse_of_rendering(v: Self)
        requires
            v.renderable(),
        ensures
            Self::parse_spec(v.rendering()) == Some(v),
    ;

    /// Produces the default value.
    fn default_value() -> (r: Self)
        ensures
            r == Self::default_spec(),
    ;

    /// Produces a copy equal to this value.
    fn duplicate(&self) -> (r: Self)
        ensures
            r == *self,
    ;

    /// Renders this value, or reports that it has no rendering.
    fn render(&self) -> (r: Result<Vec<u8>, StateError>)
        ensures
            r matches Ok(b) ==> self.renderable() && b@ == self.rendering(),
            r matches Err(e) ==> !self.renderable() && e == StateError::EncodeError,
    ;

    /// Parses a byte sequence back into a value.
    fn parse(data: &Vec<u8>) -> (r: Option<Self>)
        ensures
            r == Self::parse_spec(data@),
    ;
}

} // verus!
