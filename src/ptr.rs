//! Address arithmetic and copying inside a heap image.

use vstd::prelude::*;
use crate::bytes::align_up;

verus! {

/// Rounds `addr` up to a multiple of `align`; `None` where the result does
/// not fit in an address.
pub fn align_addr(addr: usize, align: usize) -> (r: Option<usize>)
    requires
        align > 0,
    ensures
        r is None <==> align_up(addr as int, align as int) > usize::MAX,
        r matches Some(a) ==> a == align_up(addr as int, align as int),
{
    let rem = addr % align;
    if rem == 0 {
        Some(addr)
    } else {
        addr.checked_add(align - rem)
    }
}

/// Whether the blocks `a .. a + a_size` and `b .. b + b_size` share no byte.
pub open spec fn no_overlap(a: int, a_size: int, b: int, b_size: int) -> bool {
    a + a_size <= b || b + b_size <= a
}

/// `m` with `size` bytes from `src` copied to `dst`.
pub open spec fn copied(m: Seq<u8>, dst: int, src: int, size: int) -> Seq<u8> {
    Seq::new(m.len(), |i: int| if dst <= i < dst + size { m[src + (i - dst)] } else { m[i] })
}

/// Copies `size` bytes of `mem` from index `src` to index `dst`; the two
/// blocks must not overlap.
pub fn memcpy(mem: &mut Vec<u8>, dst: usize, src: usize, size: usize)
    requires
        dst + size <= old(mem)@.len(),
        src + size <= old(mem)@.len(),
        no_overlap(dst as int, size as int, src as int, size as int),
    ensures
        final(mem)@ == copied(old(mem)@, dst as int, src as int, size as int),
{
    let len = mem.len();
    let mut i: usize = 0;
    while i < size
        invariant
            i <= size,
            len == old(mem)@.len(),
            dst + size <= old(mem)@.len(),
            src + size <= old(mem)@.len(),
            no_overlap(dst as int, size as int, src as int, size as int),
            mem@.len() == old(mem)@.len(),
            forall|j: int| 0 <= j < mem@.len() && !(dst <= j < dst + i) ==> mem@[j] == old(mem)@[j],
            forall|j: int| dst <= j < dst + i ==> mem@[j] == old(mem)@[src + (j - dst)],
        decreases size - i,
    {
        let b = mem[src + i];
        mem[dst + i] = b;
        i = i + 1;
    }
    assert(mem@ =~= copied(old(mem)@, dst as int, src as int, size as int));
}

/// Whether `n` is a power of two.
pub open spec fn is_power_of_two(n: int) -> bool
    decreases n,
{
    if n <= 0 {
        false
    } else if n == 1 {
        true
    } else {
        n % 2 == 0 && is_power_of_two(n / 2)
    }
}

/// Whether `n` is a power of two.
pub fn check_power_of_two(n: usize) -> (r: bool)
    ensures
        r == is_power_of_two(n as int),
{
    if n == 0 {
        return false;
    }
    let mut m = n;
    while m > 1 && m % 2 == 0
        invariant
            m > 0,
            is_power_of_two(m as int) == is_power_of_two(n as int),
        decreases m,
    {
        m = m / 2;
    }
    m == 1
}

} // verus!
