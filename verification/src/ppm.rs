//! Raster of 8-bit RGB pixels, stored row-major with the top row last.

use vstd::prelude::*;


use crate::vec3::V3;

verus! {

/// Raster image of 8-bit RGB triples.
#[derive(Clone, Debug, PartialEq)]
pub struct Ppm {
    /// Height of the image.
    pub height: u32,
    /// Width of the image.
    pub width: u32,
    /// Channel bytes, three per pixel, rows stored bottom-up.
    pub data: Vec<u8>,
}

impl Ppm {
    /// The channel bytes of the raster, three per pixel.
    pub open spec fn data_seq(self) -> Seq<u8> {
        self.data@
    }

    /// The buffer holds exactly three bytes per pixel and the pixel count
    /// stays within the machine word the offsets are computed in.
    pub open spec fn wf(self) -> bool {
        self.data@.len() == 3 * self.height * self.width
            && 3 * self.height * self.width <= 0xffff_ffff
    }

    /// Byte offset of pixel `(x, y)`: rows are stored bottom-up.
    pub open spec fn offset_spec(self, x: u32, y: u32) -> int {
        (self.height - 1 - y) * self.width * 3 + x * 3
    }

    /// Byte offset of a pixel given by mathematical coordinates.
    pub open spec fn offset_at(self, x: int, y: int) -> int {
        (self.height - 1 - y) * self.width * 3 + x * 3
    }

    /// The color stored at pixel `(x, y)`: its three channel bytes.
    pub open spec fn pixel_spec(self, x: u32, y: u32) -> V3 {
        V3 {
            x: self.data_seq()[self.offset_spec(x, y)] as i64,
            y: self.data_seq()[self.offset_spec(x, y) + 1] as i64,
            z: self.data_seq()[self.offset_spec(x, y) + 2] as i64,
        }
    }

    /// Returns new Ppm object filled with black pixels.
    pub fn new(height: u32, width: u32) -> (r: Ppm)
        requires
            3 * height * width <= 0xffff_ffff,
        ensures
            r.wf(),
            r.height == height,
            r.width == width,
            r.data_seq() == Seq::new((3 * height * width) as nat, |i: int| 0u8),
    {
        let size: u32 = (3u64 * (height as u64) * (width as u64)) as u32;
        let mut data: Vec<u8> = Vec::new();
        let mut i: u32 = 0;
        while i < size
            invariant
                i <= size,
                data@.len() == i,
                forall|j: int| 0 <= j < i ==> data@[j] == 0u8,
            decreases size - i,
        {
            data.push(0);
            i = i + 1;
        }
        let r = Ppm { height, width, data };
        proof {
            assert(r.data_seq() =~= Seq::new((3 * height * width) as nat, |i: int| 0u8));
        }
        r
    }

    /// Returns new Ppm object created from an `rgb` vector, or an error
    /// message when the vector does not hold three bytes per pixel.
    pub fn new_from_vec(height: u32, width: u32, rgb: Vec<u8>) -> (r: Result<
        Ppm,
        &'static str,
    >)
        requires
            3 * height * width <= 0xffff_ffff,
        ensures
            r is Ok <==> rgb@.len() == 3 * height * width,
            r matches Ok(p) ==> p.wf() && p.height == height && p.width == width
                && p.data_seq() == rgb@,
            r matches Err(e) ==> e@ == "Invalid rgb vector size."@,
    {
        let size: u32 = (3u64 * (height as u64) * (width as u64)) as u32;
        if rgb.len() != size as usize {
            Err("Invalid rgb vector size.")
        } else {
            Ok(Ppm { height, width, data: rgb })
        }
    }

    /// Number of channel bytes the raster holds.
    fn buffer_size(&self) -> (r: u32)
        requires
            self.wf(),
        ensures
            r == 3 * self.height * self.width,
    {
        (3u64 * (self.height as u64) * (self.width as u64)) as u32
    }

    /// Byte offset of pixel `(x, y)` when it lies inside the raster.
    fn get_offset(&self, x: u32, y: u32) -> (r: Option<usize>)
        requires
            self.wf(),
        ensures
            r matches Some(o) ==> y < self.height && o == self.offset_spec(x, y)
                && o + 2 < self.data_seq().len(),
            r is None ==> y >= self.height || self.offset_spec(x, y)
                >= 3 * self.height * self.width,
    {
        if y >= self.height {
            return None;
        }
        proof {
            assert(3 * (self.height as int) * (self.width as int)
                == 3 * ((self.height as int) * (self.width as int))) by (nonlinear_arith);
            assert(((self.height - 1 - y) as int) * (self.width as int)
                <= (self.height as int) * (self.width as int)) by (nonlinear_arith)
                requires y < self.height;
        }
        let k: u64 = ((self.height - 1 - y) as u64) * (self.width as u64) + (x as u64);
        let offset: u64 = 3 * k;
        proof {
            assert(offset == self.offset_spec(x, y)) by (nonlinear_arith)
                requires
                    y < self.height,
                    offset == 3 * (((self.height - 1 - y) as int) * (self.width as int)
                        + x as int);
        }
        if offset < self.buffer_size() as u64 {
            proof {
                let kk = k as int;
                let hh = self.height as int;
                let ww = self.width as int;
                assert(3 * hh * ww == 3 * (hh * ww)) by (nonlinear_arith);
                assert(3 * kk + 2 < 3 * (hh * ww)) by (nonlinear_arith)
                    requires 3 * kk < 3 * (hh * ww);
            }
            Some(offset as usize)
        } else {
            None
        }
    }

    /// Return color of the pixel at given position, channels in `x`, `y`
    /// and `z`.
    pub fn get_pixel(&self, x: u32, y: u32) -> (r: Option<V3>)
        requires
            self.wf(),
        ensures
            r matches Some(c) ==> y < self.height
                && self.offset_spec(x, y) + 2 < self.data_seq().len()
                && c.x == self.data_seq()[self.offset_spec(x, y)]
                && c.y == self.data_seq()[self.offset_spec(x, y) + 1]
                && c.z == self.data_seq()[self.offset_spec(x, y) + 2],
            r is None ==> y >= self.height || self.offset_spec(x, y)
                >= 3 * self.height * self.width,
    {
        match self.get_offset(x, y) {
            Some(offset) => {
                let red = self.data[offset];
                let green = self.data[offset + 1];
                let blue = self.data[offset + 2];
                Some(V3::new(red as i64, green as i64, blue as i64))
            },
            None => None,
        }
    }

    /// Sets color of the pixel at given position; returns whether the pixel
    /// was inside the raster.
    pub fn set_pixel(&mut self, x: u32, y: u32, color: V3) -> (r: bool)
        requires
            old(self).wf(),
            0 <= color.x <= 255,
            0 <= color.y <= 255,
            0 <= color.z <= 255,
        ensures
            final(self).wf(),
            final(self).height == old(self).height,
            final(self).width == old(self).width,
            r ==> y < old(self).height
                && old(self).offset_spec(x, y) + 2 < old(self).data_seq().len()
                && final(self).data_seq() == old(self).data_seq()
                .update(old(self).offset_spec(x, y), color.x as u8)
                .update(old(self).offset_spec(x, y) + 1, color.y as u8)
                .update(old(self).offset_spec(x, y) + 2, color.z as u8),
            !r ==> *final(self) == *old(self) && (y >= old(self).height
                || old(self).offset_spec(x, y) >= 3 * old(self).height * old(self).width),
    {
        match self.get_offset(x, y) {
            Some(offset) => {
                self.data.set(offset, color.x as u8);
                self.data.set(offset + 1, color.y as u8);
                self.data.set(offset + 2, color.z as u8);
                true
            },
            None => false,
        }
    }

    /// Writing a pixel leaves every other pixel of the raster unchanged,
    /// and the written pixel reads back as the written color.
    pub proof fn lemma_set_pixel_reads(prev: Ppm, cur: Ppm, x: u32, y: u32, color: V3)
        requires
            prev.wf(),
            cur.height == prev.height,
            cur.width == prev.width,
            x < prev.width,
            y < prev.height,
            0 <= color.x <= 255,
            0 <= color.y <= 255,
            0 <= color.z <= 255,
            cur.data_seq() == prev.data_seq()
                .update(prev.offset_spec(x, y), color.x as u8)
                .update(prev.offset_spec(x, y) + 1, color.y as u8)
                .update(prev.offset_spec(x, y) + 2, color.z as u8),
        ensures
            cur.pixel_spec(x, y) == color,
            forall|a: u32, b: u32| a < prev.width && b < prev.height && !(a == x && b == y)
                ==> #[trigger] cur.pixel_spec(a, b) == prev.pixel_spec(a, b),
    {
        lemma_offset_in_buffer(prev, x, y);
        let o = prev.offset_spec(x, y);
        assert(cur.data_seq()[o] == color.x as u8);
        assert(cur.data_seq()[o + 1] == color.y as u8);
        assert(cur.data_seq()[o + 2] == color.z as u8);
        assert((color.x as u8) as i64 == color.x);
        assert((color.y as u8) as i64 == color.y);
        assert((color.z as u8) as i64 == color.z);
        assert(cur.pixel_spec(x, y) == color);
        assert forall|a: u32, b: u32| a < prev.width && b < prev.height
            && !(a == x && b == y) implies #[trigger] cur.pixel_spec(a, b)
            == prev.pixel_spec(a, b) by {
            lemma_offset_disjoint(prev, a, b, x, y);
            lemma_offset_in_buffer(prev, a, b);
            let q = prev.offset_spec(a, b);
            assert(cur.data_seq()[q] == prev.data_seq()[q]);
            assert(cur.data_seq()[q + 1] == prev.data_seq()[q + 1]);
            assert(cur.data_seq()[q + 2] == prev.data_seq()[q + 2]);
        }
    }

    /// Returns all pixels in a vector with a fully opaque alpha channel
    /// byte appended to each RGB triple.
    pub fn get_rgba(&mut self) -> (r: Vec<u8>)
        requires
            old(self).wf(),
        ensures
            *final(self) == *old(self),
            r@.len() == old(self).data_seq().len() + old(self).data_seq().len() / 3,
            forall|j: int| #![trigger r@[4 * j]]
                0 <= j < old(self).data_seq().len() / 3 ==> {
                    &&& r@[4 * j] == old(self).data_seq()[3 * j]
                    &&& r@[4 * j + 1] == old(self).data_seq()[3 * j + 1]
                    &&& r@[4 * j + 2] == old(self).data_seq()[3 * j + 2]
                    &&& r@[4 * j + 3] == 255u8
                },
    {
        let mut result: Vec<u8> = Vec::new();
        let pixels = self.data.len() / 3;
        let mut j: usize = 0;
        while j < pixels
            invariant
                self.wf(),
                pixels == self.data_seq().len() / 3,
                3 * pixels <= self.data_seq().len(),
                j <= pixels,
                result@.len() == 4 * j,
                forall|k: int| #![trigger result@[4 * k]]
                    0 <= k < j ==> {
                        &&& result@[4 * k] == self.data_seq()[3 * k]
                        &&& result@[4 * k + 1] == self.data_seq()[3 * k + 1]
                        &&& result@[4 * k + 2] == self.data_seq()[3 * k + 2]
                        &&& result@[4 * k + 3] == 255u8
                    },
            decreases pixels - j,
        {
            let ghost before = result@;
            result.push(self.data[3 * j]);
            result.push(self.data[3 * j + 1]);
            result.push(self.data[3 * j + 2]);
            result.push(255);
            proof {
                assert forall|k: int| #![trigger result@[4 * k]]
                    0 <= k < j + 1 implies {
                    &&& result@[4 * k] == self.data_seq()[3 * k]
                    &&& result@[4 * k + 1] == self.data_seq()[3 * k + 1]
                    &&& result@[4 * k + 2] == self.data_seq()[3 * k + 2]
                    &&& result@[4 * k + 3] == 255u8
                } by {
                    if k < j {
                        assert(result@[4 * k] == before[4 * k]);
                        assert(result@[4 * k + 1] == before[4 * k + 1]);
                        assert(result@[4 * k + 2] == before[4 * k + 2]);
                        assert(result@[4 * k + 3] == before[4 * k + 3]);
                    } else {
                        assert(4 * k == before.len());
                    }
                }
            }
            j = j + 1;
        }
        proof {
            assert(3 * (self.height as int) * (self.width as int)
                == 3 * ((self.height as int) * (self.width as int))) by (nonlinear_arith);
            let hw = (self.height as int) * (self.width as int);
            assert((3 * hw) / 3 == hw) by (nonlinear_arith);
        }
        result
    }
}

/// An in-range pixel's three channel bytes lie inside the buffer.
pub proof fn lemma_offset_in_buffer(p: Ppm, x: u32, y: u32)
    requires
        p.wf(),
        x < p.width,
        y < p.height,
    ensures
        0 <= p.offset_spec(x, y),
        p.offset_spec(x, y) + 2 < 3 * p.height * p.width,
{
    let h = p.height as int;
    let w = p.width as int;
    assert((h - 1 - y) * w * 3 + x * 3 >= 0) by (nonlinear_arith)
        requires y < h, x < w, w >= 1;
    assert((h - 1 - y) * w * 3 + x * 3 + 2 < 3 * h * w) by (nonlinear_arith)
        requires y < h, x < w, w >= 1, h >= 1;
}

/// Distinct in-range pixels keep their channel bytes at least three apart,
/// so the three bytes of one never overlap the three bytes of another.
pub proof fn lemma_offset_disjoint(p: Ppm, x1: u32, y1: u32, x2: u32, y2: u32)
    requires
        p.wf(),
        x1 < p.width,
        y1 < p.height,
        x2 < p.width,
        y2 < p.height,
        !(x1 == x2 && y1 == y2),
    ensures
        p.offset_spec(x1, y1) + 2 < p.offset_spec(x2, y2)
            || p.offset_spec(x2, y2) + 2 < p.offset_spec(x1, y1),
{
    let h = p.height as int;
    let w = p.width as int;
    let r1 = h - 1 - y1;
    let r2 = h - 1 - y2;
    let k1 = r1 * w + x1;
    let k2 = r2 * w + x2;
    assert(p.offset_spec(x1, y1) == r1 * w * 3 + x1 * 3);
    assert(p.offset_spec(x2, y2) == r2 * w * 3 + x2 * 3);
    assert(r1 * w * 3 + x1 * 3 == 3 * k1) by (nonlinear_arith)
        requires k1 == r1 * w + x1;
    assert(r2 * w * 3 + x2 * 3 == 3 * k2) by (nonlinear_arith)
        requires k2 == r2 * w + x2;
    if r1 == r2 {
        assert(k1 != k2);
    } else if r1 > r2 {
        assert(k1 >= k2 + 1) by (nonlinear_arith)
            requires r1 >= r2 + 1, 0 <= x1, x2 < w, k1 == r1 * w + x1, k2 == r2 * w + x2;
    } else {
        assert(k2 >= k1 + 1) by (nonlinear_arith)
            requires r2 >= r1 + 1, 0 <= x2, x1 < w, k1 == r1 * w + x1, k2 == r2 * w + x2;
    }
    assert(k1 != k2);
    assert(3 * k1 + 2 < 3 * k2 || 3 * k2 + 2 < 3 * k1) by (nonlinear_arith)
        requires k1 != k2;
}

} // verus!
