//! Executable model of the emitted conversion pairs.
//!
//! For every variant the engine emits an embedding (`From<Payload>` on
//! the union) and a projection (`TryFrom<Union>` on the payload, with
//! the union itself as the error type).  This module states what those
//! two functions do to a union value: a value is the position of the
//! variant it currently holds together with the payload it carries.

use vstd::prelude::*;

verus! {

/// A union value as the emitted conversions treat it: the position of
/// the variant it holds, and the payload carried there.
#[derive(Debug, PartialEq, Eq)]
pub struct VariantValue<T> {
    pub tag: usize,
    pub payload: T,
}

/// What the emitted embedding returns: the asked-for variant, holding
/// exactly the given payload.
pub open spec fn spec_embed<T>(tag: usize, payload: T) -> VariantValue<T> {
    VariantValue { tag, payload }
}

/// What the emitted projection returns: the payload when the value
/// holds the asked-for variant, the whole value unchanged otherwise.
pub open spec fn spec_project<T>(tag: usize, v: VariantValue<T>) -> Result<T, VariantValue<T>> {
    if v.tag == tag {
        Result::Ok(v.payload)
    } else {
        Result::Err(v)
    }
}

/// The embedding: total, it always constructs the asked-for variant.
pub fn embed<T>(tag: usize, payload: T) -> (r: VariantValue<T>)
    ensures
        r == spec_embed(tag, payload),
{
    VariantValue { tag, payload }
}

/// The projection: it succeeds exactly when the value holds the
/// asked-for variant, and otherwise hands the value back unchanged.
pub fn project<T>(tag: usize, v: VariantValue<T>) -> (r: Result<T, VariantValue<T>>)
    ensures
        r == spec_project(tag, v),
{
    if v.tag == tag {
        Result::Ok(v.payload)
    } else {
        Result::Err(v)
    }
}

/// The round trip: embedding any payload and projecting through the
/// same variant yields the payload back, structurally unchanged.  In
/// particular the embedding is total, and the projection reports every
/// embedded value as holding that variant.
pub proof fn lemma_embed_project_roundtrip<T>(tag: usize, payload: T)
    ensures
        spec_project(tag, spec_embed(tag, payload)) == Result::<T, VariantValue<T>>::Ok(payload),
{
}

/// The negative round trip: projecting through one variant a value
/// embedded through a different variant fails, and the failure carries
/// the original value unchanged — nothing is lost on a mismatch.
pub proof fn lemma_project_mismatch<T>(tag: usize, other: usize, payload: T)
    requires
        tag != other,
    ensures
        spec_project(tag, spec_embed(other, payload)) == Result::<T, VariantValue<T>>::Err(
            spec_embed(other, payload),
        ),
{
}

} // verus!
