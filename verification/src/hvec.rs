//! Declaration of heapless's fixed-capacity vector.

use vstd::prelude::*;

verus! {

/// `heapless::Vec` is the fixed-capacity vector the firmware keeps its
/// sample buffers and color patterns in.  Declared opaque here so that it
/// can stand in verified signatures; what a value holds is named per
/// instantiation next to the functions that fill and read it.
#[verifier::external_type_specification]
#[verifier::external_body]
#[verifier::reject_recursive_types(T)]
pub struct ExHeaplessVec<T, const N: usize>(heapless::Vec<T, N>);

} // verus!
