//! Boundary-layer validation helpers: a requested pixel size must be a
//! multiple of 8 in [8, 256], and maps to the power-of-two scale exponent
//! the service takes.

use vstd::prelude::*;

verus! {

proof fn lemma_small_pow(l: u32)
    by (bit_vector)
    requires
        l < 32,
        (1u32 << l) <= 32,
    ensures
        l <= 5,
{
}

/// The exponent `l` with `value == 2^l`, when `value` is a power of two.
pub fn log2(value: u32) -> (r: Option<u32>)
    ensures
        match r {
            Some(l) => l < 32 && value == (1u32 << l),
            None => forall|l: u32| l < 32 ==> value != (1u32 << l),
        },
{
    let mut l: u32 = 0;
    while l < 32
        invariant
            l <= 32,
            forall|m: u32| m < l ==> value != (1u32 << m),
        decreases 32 - l,
    {
        if value == (1u32 << l) {
            return Some(l);
        }
        l = l + 1;
    }
    None
}

/// Map a requested pixel size to a scale exponent: sizes that are a
/// multiple of 8 in [8, 256] and a power-of-two multiple of the 8x8 face
/// yield `log2(size / 8)`; anything else is rejected.
pub fn parse_scale(size: u32) -> (r: Option<u32>)
    ensures
        match r {
            Some(scale) => {
                &&& scale <= 5
                &&& size % 8 == 0
                &&& 8 <= size <= 256
                &&& size / 8 == (1u32 << scale)
            },
            None => !(size % 8 == 0 && 8 <= size <= 256) || (forall|l: u32|
                l < 32 ==> size / 8 != (1u32 << l)),
        },
{
    if size % 8 == 0 && size >= 8 && size <= 256 {
        let r = log2(size / 8);
        proof {
            if r is Some {
                let l = r->0;
                lemma_small_pow(l);
            }
        }
        r
    } else {
        None
    }
}

} // verus!
