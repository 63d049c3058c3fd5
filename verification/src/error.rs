use vstd::prelude::*;

verus! {

/// Failure of a header decode.
///
/// Malformed or missing fields that can be papered over (a bad port line in
/// the control header) degrade to default values instead of erroring; this
/// error is reserved for buffers from which no sensible header can be
/// recovered at all, so that no partially-populated value escapes.
#[derive(Clone, Copy, PartialEq, Eq, Structural, Debug)]
pub enum HeaderError {
    MalformedHeader,
}

} // verus!
