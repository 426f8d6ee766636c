use vstd::prelude::*;

verus! {

/// The RGBA bytes of one display pixel: opaque white when on, opaque black
/// when off.
pub open spec fn pixel_rgba(on: bool) -> Seq<u8> {
    if on {
        seq![255u8, 255u8, 255u8, 255u8]
    } else {
        seq![0u8, 0u8, 0u8, 255u8]
    }
}

/// The display as an RGBA image: four bytes per pixel, in the pixels' order.
pub fn convert_to_rgba(data: &[bool]) -> (r: Vec<u8>)
    requires
        data@.len() * 4 <= usize::MAX,
    ensures
        r@.len() == 4 * data@.len(),
        forall|i: int|
            0 <= i < data@.len() ==> #[trigger] r@.subrange(4 * i, 4 * i + 4) == pixel_rgba(
                data@[i],
            ),
{
    let mut r: Vec<u8> = Vec::with_capacity(data.len() * 4);
    let mut i: usize = 0;
    while i < data.len()
        invariant
            i <= data@.len(),
            r@.len() == 4 * i,
            forall|j: int|
                0 <= j < i ==> #[trigger] r@.subrange(4 * j, 4 * j + 4) == pixel_rgba(data@[j]),
        decreases data@.len() - i,
    {
        let level: u8 = if data[i] {
            255
        } else {
            0
        };
        let ghost before = r@;
        r.push(level);
        r.push(level);
        r.push(level);
        r.push(255);
        proof {
            assert forall|j: int| 0 <= j < i + 1 implies #[trigger] r@.subrange(4 * j, 4 * j + 4)
                == pixel_rgba(data@[j]) by {
                if j < i {
                    assert(r@.subrange(4 * j, 4 * j + 4) =~= before.subrange(4 * j, 4 * j + 4));
                } else {
                    assert(r@.subrange(4 * j, 4 * j + 4) =~= pixel_rgba(data@[j]));
                }
            }
        }
        i = i + 1;
    }
    r
}

} // verus!
