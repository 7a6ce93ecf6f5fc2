use vstd::prelude::*;

verus! {

/// Raw RGBA pixel bytes with the width and height they were decoded with.
pub struct Image {
    pub buffer: Vec<u8>,
    pub dimensions: (u32, u32),
}

impl Image {
    pub fn new(data: Vec<u8>, width: u32, height: u32) -> (r: Self)
        ensures
            r.buffer@ == data@,
            r.dimensions == (width, height),
    {
        Image { buffer: data, dimensions: (width, height) }
    }
}

} // verus!
