//! Rays and the shared per-render configuration they carry.

use vstd::prelude::*;

use crate::interval::Interval;
use crate::math::{abs, scale, tdiv};
use crate::vec3::{bounded, cmax, V3};

verus! {

/// Largest magnitude of a ray parameter `t`, as a fixed-point scalar.
pub const TMAX: i64 = 0x1_0000_0000;

/// Global setting of all rays.
#[derive(Copy, Clone, Debug, PartialEq, Eq, Structural)]
pub struct RaySetting {
    /// Color of the current Scene background.
    pub background_color: V3,
    /// How many times rays should bounce between objects before returning
    /// a color.
    pub depth: u16,
    /// Interval of ray parameters within which a hit counts.
    pub ray_time: Interval,
}

/// Ray in form of a segment of the straight line.
#[derive(Copy, Clone, Debug, PartialEq, Eq, Structural)]
pub struct Ray {
    /// Origin point of the Ray.
    pub origin: V3,
    /// Direction vector of the Ray; its length encodes the parametrization.
    pub end: V3,
    /// Timestamp during which Ray lives.
    pub time: i64,
    /// Global setting shared by all Rays during rendering.
    pub setting: RaySetting,
}

impl Ray {
    /// Origin and direction are representable and the parameter interval is
    /// ordered and within the parameter limit.
    pub open spec fn wf(self) -> bool {
        self.origin.in_range() && self.end.in_range() && self.setting.ray_time.wf()
            && abs(self.setting.ray_time.min as int) <= 0x1_0000_0000
            && abs(self.setting.ray_time.max as int) <= 0x1_0000_0000
            && abs(self.time as int) <= 0x1_0000_0000
            && self.setting.background_color.in_range()
    }

    /// The point the ray reaches at parameter `t`.
    pub open spec fn at(self, t: int) -> V3 {
        V3 {
            x: (self.origin.x + tdiv(self.end.x * t, scale())) as i64,
            y: (self.origin.y + tdiv(self.end.y * t, scale())) as i64,
            z: (self.origin.z + tdiv(self.end.z * t, scale())) as i64,
        }
    }

    /// Returns point lying on the Ray at the specific parameter.
    pub fn point_at_param(&self, t: i64) -> (r: V3)
        requires
            self.origin.in_range(),
            self.end.in_range(),
            abs(t as int) <= 0x1_2000_0000,
        ensures
            r == self.at(t as int),
            bounded(r, cmax() + cmax() * 0x1_2000_0000),
    {
        let d = self.end.scale_by(t);
        self.origin.add(d)
    }
}

} // verus!
