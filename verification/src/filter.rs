//! Spatial filtering of rendered rasters, to soften sampling noise.

use vstd::prelude::*;

use crate::algs::quickselect;
use crate::ppm::Ppm;
use crate::vec3::V3;

verus! {

/// The bytes of channel `ch` over the square window of reach `size` around
/// `(px, py)`: one byte per window cell, gathered column by column as the
/// filter reads them.
pub open spec fn window_channel(p: Ppm, px: int, py: int, size: int, ch: int) -> Seq<u8> {
    let side = 2 * size + 1;
    Seq::new((side * side) as nat, |k: int|
        p.data_seq()[p.offset_at(px - size + k / side, py - size + k % side) + ch])
}

/// `m` stands at position `pos` of some reordering of `s` in which nothing
/// before that position is larger and nothing after it is smaller: `m` is
/// the `pos`-th smallest value of `s`.
pub open spec fn nth_smallest(s: Seq<u8>, pos: int, m: u8) -> bool {
    exists|w: Seq<u8>|
        #![trigger w.to_multiset()]
        w.to_multiset() == s.to_multiset() && 0 <= pos < w.len() && w[pos] == m && (forall|
            i: int| 0 <= i < pos ==> w[i] <= m) && (forall|i: int|
            pos < i < w.len() ==> w[i] >= m)
}

/// The three channels of `c` are the per-channel medians of the window of
/// reach `size` around `(x, y)` in `p`.
pub open spec fn median_pixel(p: Ppm, x: int, y: int, size: int, c: V3) -> bool {
    let side = 2 * size + 1;
    let mid = (side * side) / 2;
    &&& nth_smallest(window_channel(p, x, y, size, 0), mid, c.x as u8)
    &&& nth_smallest(window_channel(p, x, y, size, 1), mid, c.y as u8)
    &&& nth_smallest(window_channel(p, x, y, size, 2), mid, c.z as u8)
}

impl Ppm {
    /// Softens noise by replacing every interior pixel with the mean of its
    /// non-black neighbors in the surrounding square, leaving black pixels'
    /// contributions out on the assumption that every lit pixel has some
    /// color.  The raster's size is unchanged.
    pub fn box_filter(&self) -> (r: Ppm)
        requires
            self.wf(),
            self.width >= 2,
            self.height >= 2,
        ensures
            r.wf(),
            r.height == self.height,
            r.width == self.width,
    {
        let mut copied: Ppm = Ppm {
            height: self.height,
            width: self.width,
            data: clone_bytes(&self.data),
        };
        let mut px: u32 = 1;
        while px < self.width - 1
            invariant
                self.wf(),
                copied.wf(),
                copied.height == self.height,
                copied.width == self.width,
                self.width >= 2,
                self.height >= 2,
                1 <= px,
            decreases self.width - px,
        {
            let mut py: u32 = 1;
            while py < self.height - 1
                invariant
                    self.wf(),
                    copied.wf(),
                    copied.height == self.height,
                    copied.width == self.width,
                    self.width >= 2,
                    self.height >= 2,
                    1 <= px < self.width - 1,
                    1 <= py,
                decreases self.height - py,
            {
                let mut sx: u32 = 0;
                let mut sy: u32 = 0;
                let mut sz: u32 = 0;
                let mut count: u32 = 0;
                let mut dx: u32 = 0;
                while dx < 3
                    invariant
                        self.wf(),
                        1 <= px < self.width - 1,
                        1 <= py < self.height - 1,
                        dx <= 3,
                        count <= dx * 3,
                        sx <= count * 255,
                        sy <= count * 255,
                        sz <= count * 255,
                    decreases 3 - dx,
                {
                    let mut dy: u32 = 0;
                    while dy < 3
                        invariant
                            self.wf(),
                            1 <= px < self.width - 1,
                            1 <= py < self.height - 1,
                            dx < 3,
                            dy <= 3,
                            count <= dx * 3 + dy,
                            sx <= count * 255,
                            sy <= count * 255,
                            sz <= count * 255,
                        decreases 3 - dy,
                    {
                        match self.get_pixel(px - 1 + dx, py - 1 + dy) {
                            Some(c) => {
                                if !(c.x == 0 && c.y == 0 && c.z == 0) {
                                    proof {
                                        assert((count + 1) * 255 == count * 255 + 255)
                                            by (nonlinear_arith);
                                        assert(count * 255 <= 9 * 255) by (nonlinear_arith)
                                            requires count <= 9;
                                    }
                                    sx = sx + c.x as u32;
                                    sy = sy + c.y as u32;
                                    sz = sz + c.z as u32;
                                    count = count + 1;
                                }
                            },
                            None => {},
                        }
                        dy = dy + 1;
                    }
                    proof {
                        assert((dx + 1) * 3 == dx * 3 + 3) by (nonlinear_arith);
                    }
                    dx = dx + 1;
                }
                if count > 0 {
                    proof {
                        assert(count * 255 <= 9 * 255) by (nonlinear_arith)
                            requires count <= 9;
                        assert(sx / count <= 255 && sy / count <= 255 && sz / count <= 255)
                            by (nonlinear_arith)
                            requires
                                count >= 1,
                                sx <= count * 255,
                                sy <= count * 255,
                                sz <= count * 255,
                        ;
                    }
                    let mean = V3::new((sx / count) as i64, (sy / count) as i64,
                        (sz / count) as i64);
                    copied.set_pixel(px, py, mean);
                }
                py = py + 1;
            }
            px = px + 1;
        }
        copied
    }

    /// Softens noise by replacing every interior pixel with the per-channel
    /// median of the square window around it; `size` is the window's reach
    /// from its center, so reach one means a three-by-three window.  Border
    /// pixels, whose window would leave the raster, are unchanged, and the
    /// raster's size is unchanged.
    pub fn median_filter(&self, size: u32) -> (r: Ppm)
        requires
            self.wf(),
            1 <= size <= 255,
            2 * size < self.width,
            2 * size < self.height,
        ensures
            r.wf(),
            r.height == self.height,
            r.width == self.width,
            forall|x: u32, y: u32|
                x < self.width && y < self.height && !(size <= x && x < self.width - size
                    && size <= y && y < self.height - size)
                    ==> #[trigger] r.pixel_spec(x, y) == self.pixel_spec(x, y),
            forall|x: u32, y: u32|
                size <= x && x < self.width - size && size <= y && y < self.height - size
                    ==> median_pixel(*self, x as int, y as int, size as int,
                    #[trigger] r.pixel_spec(x, y)),
    {
        let mut copied: Ppm = Ppm {
            height: self.height,
            width: self.width,
            data: clone_bytes(&self.data),
        };
        let side: u32 = 2 * size + 1;
        proof {
            assert(side * side <= 511 * 511 && side * side >= 1) by (nonlinear_arith)
                requires 1 <= side <= 511;
        }
        let window: u32 = side * side;
        let mid: u32 = window / 2;
        proof {
            assert(window / 2 < window) by (nonlinear_arith)
                requires window >= 1;
        }
        let mut px: u32 = size;
        while px < self.width - size
            invariant
                self.wf(),
                copied.wf(),
                copied.height == self.height,
                copied.width == self.width,
                1 <= size <= 255,
                2 * size < self.width,
                2 * size < self.height,
                side == 2 * size + 1,
                window == side * side,
                window <= 511 * 511,
                mid < window,
                mid == window / 2,
                size <= px <= self.width - size,
                forall|a: u32, b: u32|
                    a < self.width && b < self.height && !(size <= a && a < px && size <= b
                        && b < self.height - size)
                        ==> #[trigger] copied.pixel_spec(a, b) == self.pixel_spec(a, b),
                forall|a: u32, b: u32|
                    size <= a && a < px && size <= b && b < self.height - size
                        ==> median_pixel(*self, a as int, b as int, size as int,
                        #[trigger] copied.pixel_spec(a, b)),
            decreases self.width - px,
        {
            let mut py: u32 = size;
            while py < self.height - size
                invariant
                    self.wf(),
                    copied.wf(),
                    copied.height == self.height,
                    copied.width == self.width,
                    1 <= size <= 255,
                    2 * size < self.width,
                    2 * size < self.height,
                    side == 2 * size + 1,
                    window == side * side,
                    window <= 511 * 511,
                    mid < window,
                    mid == window / 2,
                    size <= px < self.width - size,
                    size <= py <= self.height - size,
                    forall|a: u32, b: u32|
                        a < self.width && b < self.height && !((size <= a && a < px
                            && size <= b && b < self.height - size) || (a == px && size <= b
                            && b < py))
                            ==> #[trigger] copied.pixel_spec(a, b) == self.pixel_spec(a, b),
                    forall|a: u32, b: u32|
                        ((size <= a && a < px && size <= b && b < self.height - size) || (a
                            == px && size <= b && b < py))
                            ==> median_pixel(*self, a as int, b as int, size as int,
                            #[trigger] copied.pixel_spec(a, b)),
                decreases self.height - py,
            {
                let mut ch0: Vec<u8> = Vec::new();
                let mut ch1: Vec<u8> = Vec::new();
                let mut ch2: Vec<u8> = Vec::new();
                let mut dx: u32 = 0;
                while dx < side
                    invariant
                        self.wf(),
                        1 <= size <= 255,
                        2 * size < self.width,
                        2 * size < self.height,
                        side == 2 * size + 1,
                        size <= px < self.width - size,
                        size <= py < self.height - size,
                        dx <= side,
                        ch0@.len() == dx * side,
                        ch1@.len() == dx * side,
                        ch2@.len() == dx * side,
                        forall|k: int| 0 <= k < ch0@.len() ==> #[trigger] ch0@[k]
                            == window_channel(*self, px as int, py as int, size as int,
                            0)[k],
                        forall|k: int| 0 <= k < ch1@.len() ==> #[trigger] ch1@[k]
                            == window_channel(*self, px as int, py as int, size as int,
                            1)[k],
                        forall|k: int| 0 <= k < ch2@.len() ==> #[trigger] ch2@[k]
                            == window_channel(*self, px as int, py as int, size as int,
                            2)[k],
                    decreases side - dx,
                {
                    let mut dy: u32 = 0;
                    while dy < side
                        invariant
                            self.wf(),
                            1 <= size <= 255,
                            2 * size < self.width,
                            2 * size < self.height,
                            side == 2 * size + 1,
                            size <= px < self.width - size,
                            size <= py < self.height - size,
                            dx < side,
                            dy <= side,
                            ch0@.len() == dx * side + dy,
                            ch1@.len() == dx * side + dy,
                            ch2@.len() == dx * side + dy,
                            forall|k: int| 0 <= k < ch0@.len() ==> #[trigger] ch0@[k]
                                == window_channel(*self, px as int, py as int, size as int,
                                0)[k],
                            forall|k: int| 0 <= k < ch1@.len() ==> #[trigger] ch1@[k]
                                == window_channel(*self, px as int, py as int, size as int,
                                1)[k],
                            forall|k: int| 0 <= k < ch2@.len() ==> #[trigger] ch2@[k]
                                == window_channel(*self, px as int, py as int, size as int,
                                2)[k],
                        decreases side - dy,
                    {
                        proof {
                            assert(dx * side + dy < side * side) by (nonlinear_arith)
                                requires dx < side, dy < side;
                            assert(side * side <= 511 * 511) by (nonlinear_arith)
                                requires side <= 511;
                            assert((dx * side + dy) as int / side as int == dx as int
                                && (dx * side + dy) as int % side as int == dy as int)
                                by (nonlinear_arith)
                                requires 0 <= dy < side, 0 <= dx;
                            crate::ppm::lemma_offset_in_buffer(*self,
                                (px - size + dx) as u32, (py - size + dy) as u32);
                        }
                        match self.get_pixel(px - size + dx, py - size + dy) {
                            Some(c) => {
                                ch0.push(c.x as u8);
                                ch1.push(c.y as u8);
                                ch2.push(c.z as u8);
                            },
                            None => {
                                proof {
                                    assert(false);
                                }
                                ch0.push(0);
                                ch1.push(0);
                                ch2.push(0);
                            },
                        }
                        dy = dy + 1;
                    }
                    proof {
                        assert((dx + 1) * side == dx * side + side) by (nonlinear_arith);
                    }
                    dx = dx + 1;
                }
                proof {
                    assert(ch0@.len() == window);
                    assert(ch0@ =~= window_channel(*self, px as int, py as int,
                        size as int, 0));
                    assert(ch1@ =~= window_channel(*self, px as int, py as int,
                        size as int, 1));
                    assert(ch2@ =~= window_channel(*self, px as int, py as int,
                        size as int, 2));
                }
                let ghost w0 = ch0@;
                let ghost w1 = ch1@;
                let ghost w2 = ch2@;
                let m0 = quickselect(&mut ch0, mid as usize);
                let m1 = quickselect(&mut ch1, mid as usize);
                let m2 = quickselect(&mut ch2, mid as usize);
                let v = V3::new(m0 as i64, m1 as i64, m2 as i64);
                proof {
                    assert(ch0@.to_multiset() == w0.to_multiset());
                    assert(nth_smallest(w0, mid as int, m0));
                    assert(ch1@.to_multiset() == w1.to_multiset());
                    assert(nth_smallest(w1, mid as int, m1));
                    assert(ch2@.to_multiset() == w2.to_multiset());
                    assert(nth_smallest(w2, mid as int, m2));
                    assert(median_pixel(*self, px as int, py as int, size as int, v));
                }
                let ghost prev = copied;
                let wrote = copied.set_pixel(px, py, v);
                proof {
                    crate::ppm::lemma_offset_in_buffer(prev, px, py);
                    assert(wrote);
                    Ppm::lemma_set_pixel_reads(prev, copied, px, py, v);
                    assert forall|a: u32, b: u32|
                        a < self.width && b < self.height && !((size <= a && a < px
                            && size <= b && b < self.height - size) || (a == px && size <= b
                            && b < py + 1)) implies #[trigger] copied.pixel_spec(a, b)
                        == self.pixel_spec(a, b) by {
                        assert(copied.pixel_spec(a, b) == prev.pixel_spec(a, b));
                    }
                    assert forall|a: u32, b: u32|
                        ((size <= a && a < px && size <= b && b < self.height - size) || (a
                            == px && size <= b && b < py + 1)) implies median_pixel(*self,
                        a as int, b as int, size as int,
                        #[trigger] copied.pixel_spec(a, b)) by {
                        if a == px && b == py {
                            assert(copied.pixel_spec(a, b) == v);
                        } else {
                            assert(copied.pixel_spec(a, b) == prev.pixel_spec(a, b));
                        }
                    }
                }
                py = py + 1;
            }
            px = px + 1;
        }
        copied
    }
}

/// Copies a byte buffer.
fn clone_bytes(v: &Vec<u8>) -> (r: Vec<u8>)
    ensures
        r@ == v@,
{
    let mut out: Vec<u8> = Vec::new();
    let mut i: usize = 0;
    while i < v.len()
        invariant
            i <= v@.len(),
            out@.len() == i,
            forall|j: int| 0 <= j < i ==> out@[j] == v@[j],
        decreases v@.len() - i,
    {
        out.push(v[i]);
        i = i + 1;
    }
    proof {
        assert(out@ =~= v@);
    }
    out
}

} // verus!
