//! The one piece of plain logic in table rendering: decoding the
//! locked-column bitmap.  The table walk itself emits markup from the
//! document model and stays with the surrounding program.
use vstd::prelude::*;

verus! {

/// The locked flag of each of `count` columns: bit `i % 8` of byte `i / 8`
/// of the bitmap, tested against one exactly; every column is unlocked when
/// the bitmap is empty.
pub open spec fn spec_locked_cols(data: Seq<u8>, count: nat) -> Seq<bool> {
    if data.len() == 0 {
        Seq::new(count, |i: int| false)
    } else {
        Seq::new(count, |i: int| data[i / 8] & (1u8 << (i % 8) as u8) == 1)
    }
}

/// Decodes the locked-column bitmap for `count` columns.
pub fn calc_locked_cols(data: &Vec<u8>, count: u32) -> (r: Vec<bool>)
    requires
        data@.len() == 0 || count as nat <= data@.len() * 8,
    ensures
        r@ == spec_locked_cols(data@, count as nat),
{
    let mut r: Vec<bool> = Vec::new();
    let mut i: u32 = 0;
    if data.len() == 0 {
        while i < count
            invariant
                0 <= i <= count,
                r@.len() == i,
                forall|m: int| 0 <= m < i ==> !r@[m],
            decreases count - i,
        {
            r.push(false);
            i = i + 1;
        }
        proof {
            assert(r@ =~= spec_locked_cols(data@, count as nat));
        }
    } else {
        while i < count
            invariant
                0 <= i <= count,
                data@.len() > 0,
                count as nat <= data@.len() * 8,
                r@.len() == i,
                forall|m: int|
                    0 <= m < i ==> r@[m] == (data@[m / 8] & (1u8 << (m % 8) as u8) == 1),
            decreases count - i,
        {
            proof {
                assert(i / 8 < data@.len()) by (nonlinear_arith)
                    requires
                        i < count,
                        count as nat <= data@.len() * 8,
                ;
            }
            let byte = data[(i / 8) as usize];
            let locked = byte & (1u8 << ((i % 8) as u8)) == 1;
            r.push(locked);
            i = i + 1;
        }
        proof {
            assert(r@ =~= spec_locked_cols(data@, count as nat));
        }
    }
    r
}

} // verus!
