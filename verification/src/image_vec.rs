//! The flat channel vectors that the display takes, and what they hold.

use vstd::prelude::*;
use wasm_bindgen::Clamped;

verus! {

/// `wasm_bindgen::Clamped`, the vector type that the display takes its
/// channels in; what a value of it holds is told by `clamped_channels`.
#[verifier::external_type_specification]
#[verifier::external_body]
#[verifier::reject_recursive_types(T)]
pub struct ExClamped<T>(wasm_bindgen::Clamped<T>);

/// The channels that a clamped vector holds, in their order.
pub uninterp spec fn clamped_channels(vector: Clamped<Vec<u8>>) -> Seq<u8>;

/// The constructor `Clamped`: the clamped vector holds the channels handed
/// in, unchanged.
#[verifier::external_body]
pub(crate) fn clamp(channels: Vec<u8>) -> (vector: Clamped<Vec<u8>>)
    ensures
        clamped_channels(vector) == channels@,
{
    Clamped(channels)
}

/// `Deref::deref` of `Clamped`: the vector that the clamped vector holds.
#[verifier::external_body]
pub(crate) fn held<'a>(vector: &'a Clamped<Vec<u8>>) -> (channels: &'a Vec<u8>)
    ensures
        channels@ == clamped_channels(*vector),
{
    &**vector
}

/// `DerefMut::deref_mut` of `Clamped`, to overwrite one channel of the
/// vector that the clamped vector holds; every other channel stays.
#[verifier::external_body]
pub(crate) fn set_channel(vector: &mut Clamped<Vec<u8>>, index: usize, value: u8)
    requires
        index < clamped_channels(*old(vector)).len(),
    ensures
        clamped_channels(*final(vector)) == clamped_channels(*old(vector)).update(
            index as int,
            value,
        ),
{
    (**vector)[index] = value;
}

/// The channels of `length` opaque white pixels.
pub fn blank(length: u32) -> (vector: Clamped<Vec<u8>>)
    requires
        4 * length <= usize::MAX,
    ensures
        clamped_channels(vector).len() == 4 * length,
        forall|i: int| 0 <= i < 4 * length ==> clamped_channels(vector)[i] == 255,
{
    let channels: usize = length as usize * 4;
    clamp(vec![255u8; channels])
}

} // verus!
