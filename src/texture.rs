use vstd::prelude::*;
use crate::bitmap::RayonettaImage;

verus! {

/// Parity of the checker cell with integer coordinates (x, y, z): the
/// Euclidean remainder of their sum by two, so that it alternates across
/// the origin as well as elsewhere.
pub open spec fn cell_parity(x: int, y: int, z: int) -> int {
    (x + y + z) % 2
}

/// Whether the checker cell (x, y, z) takes the odd texture. The cell
/// coordinates are the floors of the scaled point coordinates.
pub fn checker_is_odd(x: i32, y: i32, z: i32) -> (odd: bool)
    ensures
        odd == (cell_parity(x as int, y as int, z as int) == 1),
{
    let s: i64 = x as i64 + y as i64 + z as i64;
    if s >= 0 {
        (s as u64) % 2 == 1
    } else {
        let n: u64 = (-(s + 1)) as u64;
        proof {
            assert(s as int == -(n as int) - 1);
            assert((n as int) % 2 == 0 ==> (s as int) % 2 == 1);
            assert((n as int) % 2 == 1 ==> (s as int) % 2 == 0);
        }
        n % 2 == 0
    }
}

/// Moving one cell along any axis changes the parity: neighbouring cells
/// never share a texture, on either side of the origin.
pub proof fn lemma_neighbour_cells_differ(x: int, y: int, z: int)
    ensures
        cell_parity(x, y, z) != cell_parity(x + 1, y, z),
        cell_parity(x, y, z) != cell_parity(x, y + 1, z),
        cell_parity(x, y, z) != cell_parity(x, y, z + 1),
        0 <= cell_parity(x, y, z) < 2,
{
}

/// A texture that looks colours up in a decoded bitmap.
pub struct ImageTexture {
    image: RayonettaImage,
}

impl ImageTexture {
    pub closed spec fn wf(&self) -> bool {
        self.image.wf()
    }

    pub closed spec fn bitmap(&self) -> RayonettaImage {
        self.image
    }

    /// Loads the bitmap at `filename`; a missing or malformed file is an error.
    pub fn from_image(filename: &str) -> (r: Result<Self, String>)
        ensures
            r matches Ok(t) ==> t.wf(),
            r matches Err(msg) ==> (msg@ == RayonettaImage::failure_message(
                crate::bitmap::LoadFailure::NotFound,
            ) || msg@ == RayonettaImage::failure_message(crate::bitmap::LoadFailure::Malformed)),
    {
        match RayonettaImage::from_file(filename) {
            Ok(image) => Ok(ImageTexture { image }),
            Err(msg) => Err(msg),
        }
    }

    /// The bitmap the texture samples.
    pub fn source(&self) -> (r: &RayonettaImage)
        ensures
            *r == self.bitmap(),
    {
        &self.image
    }

    /// The colour of texel (i, j), where row 0 is the top of the bitmap;
    /// coordinates past the edge read the edge. `None` for an empty bitmap,
    /// which has no texel to show.
    pub fn texel(&self, i: u32, j: u32) -> (r: Option<(u8, u8, u8)>)
        requires
            self.wf(),
        ensures
            ({
                let w = self.bitmap().spec_width();
                let h = self.bitmap().spec_height();
                if w == 0 || h == 0 {
                    r is None
                } else {
                    let ic = if i >= w { (w - 1) as u32 } else { i };
                    let jc = if j >= h { (h - 1) as u32 } else { j };
                    let p = self.bitmap().pixels()[(ic, jc)];
                    r == Some((p.0, p.1, p.2))
                }
            }),
    {
        if self.image.width() == 0 || self.image.height() == 0 {
            return None;
        }
        Some(self.image.pixel_data(i, j))
    }
}

} // verus!
