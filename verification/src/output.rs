use vstd::prelude::*;

use crate::region::{LogicalRegion, Size};

verus! {

/// Rotation/flip the compositor applies to an output's content relative to
/// the physical pixel layout.
#[derive(Clone, Copy, Debug, PartialEq, Eq, Structural)]
pub enum Transform {
    Normal,
    Rot90,
    Rot180,
    Rot270,
    Flipped,
    Flipped90,
    Flipped180,
    Flipped270,
}

impl Transform {
    /// The transform swaps the two axes of the physical buffer.
    pub open spec fn swaps_axes(self) -> bool {
        self == Transform::Rot90 || self == Transform::Rot270 || self == Transform::Flipped90
            || self == Transform::Flipped270
    }
}

/// One physical display, unique by `id` within a tracker instance. Filled
/// incrementally as property events arrive; trustworthy only once discovery
/// has completed.
#[derive(Clone, Debug)]
pub struct OutputInfo {
    /// Stable identity of the underlying output object.
    pub id: u64,
    /// Human-readable name.
    pub name: String,
    /// Human-readable description.
    pub description: String,
    /// Rotation/flip of the content relative to the physical pixel layout.
    pub transform: Transform,
    /// Raw pixel dimensions, pre-rotation.
    pub physical_size: Size,
    /// Position and size in compositor logical units.
    pub logical_region: LogicalRegion,
}

impl OutputInfo {
    /// Field bounds that the wire protocol guarantees: every dimension was
    /// received as a non-negative signed 32-bit integer.
    pub open spec fn wf(self) -> bool {
        &&& self.logical_region.fits_wire()
        &&& self.physical_size.width <= i32::MAX
        &&& self.physical_size.height <= i32::MAX
    }

    /// Discovery has produced a usable record: bounds hold and the logical
    /// region has strictly positive area.
    pub open spec fn discovered(self) -> bool {
        &&& self.wf()
        &&& 0 < self.logical_region.size.width
        &&& 0 < self.logical_region.size.height
    }

    /// Physical width along the axis that corresponds to the logical width,
    /// accounting for axis-swapping transforms.
    pub open spec fn spec_upright_physical_width(self) -> u32 {
        if self.transform.swaps_axes() {
            self.physical_size.height
        } else {
            self.physical_size.width
        }
    }

    /// The output's scale factor as an exact ratio: upright physical width
    /// over logical width.
    pub open spec fn spec_scale(self) -> Scale {
        Scale { num: self.spec_upright_physical_width(), den: self.logical_region.size.width }
    }

    /// The output's scale factor (physical size over logical size, per-axis
    /// consistency assumed), as an exact ratio.
    pub fn scale(&self) -> (r: Scale)
        requires
            self.discovered(),
        ensures
            r == self.spec_scale(),
            r.wf(),
    {
        let num = if self.transform.swaps_axes_exec() {
            self.physical_size.height
        } else {
            self.physical_size.width
        };
        Scale { num, den: self.logical_region.size.width }
    }
}

impl Transform {
    /// Executable twin of [`Transform::swaps_axes`].
    pub fn swaps_axes_exec(&self) -> (r: bool)
        ensures
            r == self.swaps_axes(),
    {
        match self {
            Transform::Rot90 | Transform::Rot270 | Transform::Flipped90
                | Transform::Flipped270 => true,
            _ => false,
        }
    }
}

/// An exact scale factor `num / den`. Dimensions in logical units times the
/// scale give dimensions in composite pixels.
#[derive(Clone, Copy, Debug, PartialEq, Eq, Structural)]
pub struct Scale {
    pub num: u32,
    pub den: u32,
}

impl Scale {
    /// The denominator is positive and both parts fit the signed 32-bit
    /// range, as wire-reported dimensions do.
    pub open spec fn wf(self) -> bool {
        &&& 0 < self.den <= i32::MAX
        &&& self.num <= i32::MAX
    }

    /// The identity scale.
    pub open spec fn spec_one() -> Scale {
        Scale { num: 1, den: 1 }
    }

    /// `self >= other` as rationals.
    pub open spec fn ge(self, other: Scale) -> bool {
        self.num * other.den >= other.num * self.den
    }

    /// The identity scale.
    pub fn one() -> (r: Scale)
        ensures
            r == Scale::spec_one(),
            r.wf(),
    {
        Scale { num: 1, den: 1 }
    }

    /// Compare two scales as rationals.
    pub fn ge_exec(&self, other: &Scale) -> (r: bool)
        ensures
            r == self.ge(*other),
    {
        proof {
            vstd::arithmetic::mul::lemma_mul_upper_bound(
                self.num as int,
                u32::MAX as int,
                other.den as int,
                u32::MAX as int,
            );
            vstd::arithmetic::mul::lemma_mul_upper_bound(
                other.num as int,
                u32::MAX as int,
                self.den as int,
                u32::MAX as int,
            );
        }
        self.num as u64 * other.den as u64 >= other.num as u64 * self.den as u64
    }

    /// A non-negative dimension scaled by `self`, rounded toward zero.
    pub open spec fn spec_apply(self, v: int) -> int {
        v * self.num / (self.den as int)
    }

    /// Scale a dimension, rounding down. The result always fits `u64`.
    pub fn apply(&self, v: u32) -> (r: u64)
        requires
            self.wf(),
        ensures
            r == self.spec_apply(v as int),
            r <= 0x8000_0000_0000_0000u64,
    {
        proof {
            vstd::arithmetic::mul::lemma_mul_upper_bound(
                v as int,
                u32::MAX as int,
                self.num as int,
                i32::MAX as int,
            );
            assert((v as int * self.num as int) / (self.den as int) <= v as int
                * self.num as int) by (nonlinear_arith)
                requires
                    0 < self.den as int,
                    0 <= v as int * self.num as int,
            ;
        }
        v as u64 * self.num as u64 / self.den as u64
    }

    /// A signed offset scaled by `self`, rounded toward zero.
    pub open spec fn spec_apply_signed(self, v: int) -> int {
        if v >= 0 {
            self.spec_apply(v)
        } else {
            -self.spec_apply(-v)
        }
    }

    /// Scale a signed offset, rounding toward zero.
    pub fn apply_signed(&self, v: i64) -> (r: i64)
        requires
            self.wf(),
            -0x1_0000_0000i64 <= v <= 0x1_0000_0000i64,
        ensures
            r == self.spec_apply_signed(v as int),
            -0x7fff_ffff_0000_0000 <= r <= 0x7fff_ffff_0000_0000,
    {
        if v >= 0 {
            let scaled: u64 = self.scale_mag(v as u64);
            scaled as i64
        } else {
            let mag: u64 = (-v) as u64;
            let scaled: u64 = self.scale_mag(mag);
            -(scaled as i64)
        }
    }

    /// Scale a magnitude bounded by 2^32, rounding down.
    fn scale_mag(&self, mag: u64) -> (r: u64)
        requires
            self.wf(),
            mag <= 0x1_0000_0000u64,
        ensures
            r == self.spec_apply(mag as int),
            r <= 0x7fff_ffff_0000_0000u64,
    {
        proof {
            vstd::arithmetic::mul::lemma_mul_upper_bound(
                mag as int,
                0x1_0000_0000,
                self.num as int,
                i32::MAX as int,
            );
            assert((mag as int * self.num as int) / (self.den as int) <= mag as int
                * self.num as int) by (nonlinear_arith)
                requires
                    0 < self.den as int,
                    0 <= mag as int * self.num as int,
            ;
        }
        mag * self.num as u64 / self.den as u64
    }
}

} // verus!
