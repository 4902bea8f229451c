//! The header of a safetensors file: whether its sizes can be reckoned with.

use vstd::prelude::*;

use super::ops::read_sizes;
use super::shape::element_count;

verus! {

/// The little-endian integer in the four bytes at `at`.
pub(crate) fn u32_of(file: &[u8], at: usize) -> (value: u32)
    requires
        at + 4 <= file@.len(),
    ensures
        value == crate::memory::u32_at(file@, at as int),
{
    let size: usize = file.len();
    file[at] as u32 + 0x100 * file[at + 1] as u32 + 0x1_0000 * file[at + 2] as u32 + 0x100_0000
        * file[at + 3] as u32
}

/// Whether the extents of every shape can be multiplied up.
fn all_countable(shapes: &Vec<Vec<usize>>) -> (all: bool)
    ensures
        all <==> forall|i: int|
            0 <= i < shapes@.len() ==> super::shape::countable((#[trigger] shapes@[i])@),
{
    let mut i: usize = 0;
    while i < shapes.len()
        invariant
            i <= shapes.len(),
            forall|j: int| 0 <= j < i ==> super::shape::countable((#[trigger] shapes@[j])@),
        decreases shapes.len() - i,
    {
        if element_count(&shapes[i]).is_none() {
            assert(!super::shape::countable(shapes@[i as int]@));
            return false;
        }
        i += 1;
    }
    true
}

/// Whether sizes that a header gives fit a file that goes on for `rest` bytes
/// behind it.
pub fn sizes_fit(end: usize, shapes: &Vec<Vec<usize>>, rest: usize) -> (fit: bool)
    ensures
        fit <==> {
            &&& end <= rest
            &&& forall|i: int|
                0 <= i < shapes@.len() ==> super::shape::countable((#[trigger] shapes@[i])@)
        },
{
    end <= rest && all_countable(shapes)
}

/// Whether the sizes in the header of a safetensors file can be added and
/// multiplied up. A file without a readable header has none that cannot.
pub fn can_measure(file: &[u8]) -> (fits: bool)
    ensures
        fits == super::ops::measurable(file@),
{
    let size: usize = file.len();
    if size < 8 {
        return true;
    }
    let len: u64 = u32_of(file, 0) as u64 + 0x1_0000_0000 * u32_of(file, 4) as u64;
    if len > size as u64 - 8 {
        return true;
    }
    let len: usize = len as usize;
    let header: &[u8] = vstd::slice::slice_subrange(file, 8, 8 + len);
    match read_sizes(header) {
        Err(_) => true,
        Ok((end, shapes)) => {
            let fit: bool = sizes_fit(end, &shapes, size - 8 - len);
            proof {
                let sizes = super::ops::sizes_in(header@)->0;
                if fit {
                    assert forall|dims: Seq<usize>| #[trigger] sizes.shapes.contains(dims) implies super::shape::countable(
                    dims) by {
                        let i = choose|i: int| 0 <= i < shapes@.len() && (#[trigger] shapes@[i])@ == dims;
                        assert(super::shape::countable(shapes@[i]@));
                    }
                }
            }
            fit
        },
    }
}

} // verus!
