//! Elements of the prime field the machine computes in.

use vstd::prelude::*;

verus! {

/// The field modulus `P = 2^64 - 2^32 + 1`.
pub const MODULUS: u64 = 0xFFFF_FFFF_0000_0001;

/// Number of field elements in a word.
pub const WORD_SIZE: usize = 4;

/// A field element, held as its canonical representative in `[0, P)`.
#[derive(Clone, Copy, Debug, PartialEq, Eq, Hash)]
pub struct Felt {
    value: u64,
}

impl View for Felt {
    type V = u64;

    closed spec fn view(&self) -> u64 {
        self.value
    }
}

impl Felt {
    #[verifier::type_invariant]
    spec fn is_canonical(self) -> bool {
        self.value < MODULUS
    }

    /// The element represented by `value`, reduced modulo `P`.
    pub fn new(value: u64) -> (r: Felt)
        ensures
            r@ == value % MODULUS,
    {
        Felt { value: value % MODULUS }
    }

    /// The canonical representative of this element.
    pub fn as_int(&self) -> (v: u64)
        ensures
            v == self@,
            v < MODULUS,
    {
        proof {
            use_type_invariant(self);
        }
        self.value
    }
}

} // verus!
