//! Surface materials, the record of a ray meeting a surface, and the choice
//! between the two points at which a ray's line crosses a sphere.

use vstd::prelude::*;

verus! {

/// How a surface answers light.
#[derive(Clone, Copy, Debug, PartialEq, Eq, Structural)]
pub enum Material {
    /// A matte surface with red, green and blue channels.
    Diffuse(i32, i32, i32),
    /// A perfect mirror.
    Specular,
}

/// The largest value of a colour channel.
pub const CHANNEL_MAX: i32 = 255;

impl Material {
    /// A diffuse material is well formed when each channel lies in `0..=255`;
    /// a mirror always is.
    pub open spec fn wf(self) -> bool {
        match self {
            Material::Diffuse(r, g, b) => {
                &&& 0 <= r <= CHANNEL_MAX
                &&& 0 <= g <= CHANNEL_MAX
                &&& 0 <= b <= CHANNEL_MAX
            },
            Material::Specular => true,
        }
    }

    /// Tests whether the material is well formed.
    pub fn is_valid(&self) -> (ok: bool)
        ensures
            ok == self.wf(),
    {
        match *self {
            Material::Diffuse(r, g, b) => {
                0 <= r && r <= CHANNEL_MAX && 0 <= g && g <= CHANNEL_MAX && 0 <= b && b
                    <= CHANNEL_MAX
            },
            Material::Specular => true,
        }
    }
}

/// What the scene keeps of one meeting of a ray and a surface: how far along
/// the ray it lies, and the material found there.
#[derive(Clone, Copy, Debug, PartialEq, Eq, Structural)]
pub struct HitRecord {
    /// Distance along the ray, in an integer encoding that keeps the order
    /// of distances and gives zero to the ray's origin.
    pub t: i64,
    /// Material of the surface that was met.
    pub material: Material,
}

/// One of the two crossings of a ray's line with a sphere.
#[derive(Clone, Copy, Debug, PartialEq, Eq, Structural)]
pub enum Root {
    /// The crossing with the smaller distance.
    Near,
    /// The crossing with the larger distance.
    Far,
}

/// The crossing at which a ray meets a sphere, given the distances of both
/// crossings: none when even the far one lies behind the origin, the near one
/// when it is not behind the origin, the far one otherwise.
pub open spec fn select_root_spec(near: i64, far: i64) -> Option<Root> {
    if far < 0 {
        None
    } else if near >= 0 {
        Some(Root::Near)
    } else {
        Some(Root::Far)
    }
}

/// Chooses the crossing at which a ray meets a sphere. A ray that starts
/// inside the sphere meets it at the far crossing.
pub fn select_root(near: i64, far: i64) -> (root: Option<Root>)
    ensures
        root == select_root_spec(near, far),
{
    if far < 0 {
        None
    } else if near >= 0 {
        Some(Root::Near)
    } else {
        Some(Root::Far)
    }
}

} // verus!
