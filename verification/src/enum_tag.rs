//! The capability interface that the tag pipeline's emitted bindings
//! refer to, for users of the generated code to rely on.

use vstd::prelude::*;

verus! {

/// A union with a companion tag type: a payload-less enumeration with
/// one case per variant.
pub trait Tagged {
    type Tag;
}

/// A payload type that is one variant of the union `Enum`, identified
/// by the tag constant named after its variant.
pub trait VariantOf<Enum: Tagged>: Into<Enum> + TryFrom<Enum, Error = Enum> {
    const TAG: Enum::Tag;
}

} // verus!
