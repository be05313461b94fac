//! Surface materials: a base color that may depend on the hit point, and fixed
//! albedo weights `[diffuse, specular, reflective, transmissive]`, a specular
//! exponent and a refractive index.
use crate::color::Rgba8;
use crate::ieee32::{clamp_int, Ieee32};
use vstd::prelude::*;

verus! {

/// Index of the diffuse weight in an albedo.
pub const DIFFUSE: usize = 0;

/// Index of the specular weight in an albedo.
pub const SPECULAR: usize = 1;

/// Index of the mirror-reflection weight in an albedo.
pub const REFLECTIVE: usize = 2;

/// Index of the transmission weight in an albedo.
pub const TRANSMISSIVE: usize = 3;

/// A material of one color.
#[derive(Clone, Copy, Debug)]
pub struct PlainMaterial {
    pub color: Rgba8,
    pub albedo: [Ieee32; 4],
    pub spec_exponent: Ieee32,
    pub refr_ratio: Ieee32,
}

/// A checkerboard on the XZ plane: cells alternate between `color0` and
/// `color1`.
#[derive(Clone, Copy, Debug)]
pub struct CheckerFloorMaterial {
    pub color0: Rgba8,
    pub color1: Rgba8,
    pub albedo: [Ieee32; 4],
    pub spec_exponent: Ieee32,
    pub refr_ratio: Ieee32,
}

#[derive(Clone, Copy, Debug)]
pub enum Material {
    Plain(PlainMaterial),
    Checker(CheckerFloorMaterial),
}

/// Index of the checkerboard cell of a scaled coordinate: its floor, saturated
/// to `i32` (0 for a NaN).
pub open spec fn cell_index(scaled: Ieee32) -> int {
    if scaled.nan() {
        0
    } else {
        clamp_int(scaled.floor(), i32::MIN as int, i32::MAX as int)
    }
}

impl CheckerFloorMaterial {
    /// The color of cell `(ix, iz)`: `color0` where the index sum is odd.
    pub open spec fn cell_color(self, ix: int, iz: int) -> Rgba8 {
        if (ix + iz) % 2 == 1 {
            self.color0
        } else {
            self.color1
        }
    }

    /// The color at a point whose coordinates, times the cell scale, are
    /// `scaled_x` and `scaled_z`.
    pub fn color(&self, scaled_x: Ieee32, scaled_z: Ieee32) -> (c: Rgba8)
        ensures
            c == self.cell_color(cell_index(scaled_x), cell_index(scaled_z)),
    {
        let ix = scaled_x.floor_i32() as i64;
        let iz = scaled_z.floor_i32() as i64;
        if (ix + iz) % 2 != 0 {
            self.color0
        } else {
            self.color1
        }
    }
}

impl Material {
    pub open spec fn albedo_of(self) -> [Ieee32; 4] {
        match self {
            Material::Plain(m) => m.albedo,
            Material::Checker(m) => m.albedo,
        }
    }

    /// The base color at a point, given its scaled X and Z coordinates (only a
    /// checkerboard reads them).
    pub open spec fn color_at(self, scaled_x: Ieee32, scaled_z: Ieee32) -> Rgba8 {
        match self {
            Material::Plain(m) => m.color,
            Material::Checker(m) => m.cell_color(cell_index(scaled_x), cell_index(scaled_z)),
        }
    }

    pub fn color(&self, scaled_x: Ieee32, scaled_z: Ieee32) -> (c: Rgba8)
        ensures
            c == self.color_at(scaled_x, scaled_z),
    {
        match self {
            Material::Plain(m) => m.color,
            Material::Checker(m) => m.color(scaled_x, scaled_z),
        }
    }

    pub fn albedo(&self) -> (a: [Ieee32; 4])
        ensures
            a == self.albedo_of(),
    {
        match self {
            Material::Plain(m) => m.albedo,
            Material::Checker(m) => m.albedo,
        }
    }

    pub fn spec_exponent(&self) -> (e: Ieee32)
        ensures
            e == (match self {
                Material::Plain(m) => m.spec_exponent,
                Material::Checker(m) => m.spec_exponent,
            }),
    {
        match self {
            Material::Plain(m) => m.spec_exponent,
            Material::Checker(m) => m.spec_exponent,
        }
    }

    pub fn refr_ratio(&self) -> (n: Ieee32)
        ensures
            n == (match self {
                Material::Plain(m) => m.refr_ratio,
                Material::Checker(m) => m.refr_ratio,
            }),
    {
        match self {
            Material::Plain(m) => m.refr_ratio,
            Material::Checker(m) => m.refr_ratio,
        }
    }

    /// Whether a hit on this material spawns a mirror-reflection ray: its
    /// reflective weight is strictly positive.
    pub fn reflects(&self) -> (r: bool)
        ensures
            r == self.albedo_of()@[REFLECTIVE as int].positive(),
    {
        let a = self.albedo();
        a[REFLECTIVE].is_positive()
    }

    /// Whether a hit on this material spawns a refraction ray: its
    /// transmissive weight is strictly positive.
    pub fn transmits(&self) -> (r: bool)
        ensures
            r == self.albedo_of()@[TRANSMISSIVE as int].positive(),
    {
        let a = self.albedo();
        a[TRANSMISSIVE].is_positive()
    }
}

/// Adjacent checkerboard cells, along X or along Z, have different colors
/// when the two colors differ; points of one cell share its color.
pub proof fn lemma_checker_alternates(
    m: CheckerFloorMaterial,
    ix: int,
    iz: int,
    x0: Ieee32,
    z0: Ieee32,
    x1: Ieee32,
    z1: Ieee32,
)
    requires
        m.color0 != m.color1,
    ensures
        m.cell_color(ix, iz) != m.cell_color(ix + 1, iz),
        m.cell_color(ix, iz) != m.cell_color(ix, iz + 1),
        cell_index(x0) == cell_index(x1) && cell_index(z0) == cell_index(z1) ==> (Material::Checker(
            m,
        )).color_at(x0, z0) == (Material::Checker(m)).color_at(x1, z1),
{
}

} // verus!
