//! The path integrator's decisions, one level of a path at a time.
//!
//! A path starts at depth 0 with a ray from the eye. At each level the
//! caller probes the scene with the current ray and hands the outcomes to
//! `get_color`, which says how the level ends: with nothing, with the light's
//! colour, or on a surface from which the path goes one level deeper. On a
//! surface, `Material::bounce` turns a uniform random number into the kind
//! of bounce, and `Bounce::incoming` settles what arrives from the deeper
//! level when that level found nothing.

use vstd::prelude::*;
use crate::color::Color;
use crate::hit::{is_nearest, lemma_nearest, nearest, nearest_hit};
use crate::scalar::{
    is_probability, lemma_order_of_nonnegative, less_than, lt, positive, probability, ONE, ZERO,
};

verus! {

/// What the integrator reads of a sphere: its colour and the probability,
/// between zero and one, that it scatters light diffusely rather than
/// mirroring it.
#[derive(Debug, Copy, Clone, PartialEq, Eq, Structural)]
pub struct Material {
    pub color: Color,
    pub diffuseness: u64,
}

/// The two ways a path leaves a surface.
#[derive(Debug, Copy, Clone, PartialEq, Eq, Structural)]
pub enum Bounce {
    /// Mirror reflection about the surface normal.
    Specular,
    /// Scattering into the hemisphere around the normal, together with a
    /// direct sample of the light.
    Diffuse,
}

/// How one level of a path ends.
#[derive(Debug, Copy, Clone, PartialEq, Eq, Structural)]
pub enum Arrival {
    /// No contribution: the path is cut off, or the ray left the scene.
    Nothing,
    /// The ray reached the light. Its colour is the level's result and the
    /// path ends here.
    Light(Color),
    /// The ray reached sphere `sphere`, which is not the light. The path
    /// goes on from there at depth `depth`.
    Surface { sphere: usize, depth: i8 },
}

/// What is wrong with a scene.
#[derive(Debug, Copy, Clone, PartialEq, Eq, Structural)]
pub enum SceneError {
    /// The scene has no sphere, so it has no light.
    Empty,
    /// The first sphere does not have the light's colour.
    FirstIsNotLight,
    /// The diffuseness of sphere `sphere` is not a number from zero to one.
    Diffuseness { sphere: usize },
}

/// Whether a scene is fit to be rendered: it starts with the light, and
/// every diffuseness is a probability.
pub open spec fn valid_scene(scene: Seq<Material>) -> bool {
    &&& scene.len() > 0
    &&& scene[0].color.near_white()
    &&& forall|i: int| 0 <= i < scene.len() ==> probability((#[trigger] scene[i]).diffuseness)
}

/// Checks a scene once, before any path is traced through it.
///
/// The checks are made in the order of the error's variants, and of several
/// spheres with a bad diffuseness the first is reported.
pub fn check_scene(scene: &[Material]) -> (r: Result<(), SceneError>)
    ensures
        r is Ok <==> valid_scene(scene@),
        r == Err::<(), SceneError>(SceneError::Empty) <==> scene@.len() == 0,
        r == Err::<(), SceneError>(SceneError::FirstIsNotLight) <==> scene@.len() > 0
            && !scene@[0].color.near_white(),
        forall|k: usize|
            r == Err::<(), SceneError>(SceneError::Diffuseness { sphere: k }) <==> {
                &&& scene@.len() > 0
                &&& scene@[0].color.near_white()
                &&& k < scene@.len()
                &&& !probability(scene@[k as int].diffuseness)
                &&& forall|i: int| 0 <= i < k ==> probability((#[trigger] scene@[i]).diffuseness)
            },
{
    if scene.len() == 0 {
        return Err(SceneError::Empty);
    }
    if !scene[0].color.is_light() {
        return Err(SceneError::FirstIsNotLight);
    }
    let mut i: usize = 0;
    while i < scene.len()
        invariant
            i <= scene@.len(),
            scene@[0].color.near_white(),
            forall|j: int| 0 <= j < i ==> probability((#[trigger] scene@[j]).diffuseness),
        decreases scene@.len() - i,
    {
        if !is_probability(scene[i].diffuseness) {
            return Err(SceneError::Diffuseness { sphere: i });
        }
        i += 1;
    }
    Ok(())
}

/// How a level ends, given the scene, the outcomes of probing it with the
/// level's ray, the level's depth and the depth at which paths are cut off.
pub open spec fn arrival(
    scene: Seq<Material>,
    probes: Seq<Option<u64>>,
    depth: i8,
    max_depth: i8,
) -> Arrival {
    if depth == max_depth {
        Arrival::Nothing
    } else {
        match nearest(probes) {
            None => Arrival::Nothing,
            Some(k) => if scene[k].color.near_white() {
                Arrival::Light(scene[k].color)
            } else {
                Arrival::Surface { sphere: k as usize, depth: (depth + 1) as i8 }
            },
        }
    }
}

/// Decides how one level of a path ends.
///
/// `probes` holds, for every sphere of `scene` in order, the outcome of
/// probing it with the level's ray.
pub fn get_color(
    scene: &[Material],
    probes: &[Option<u64>],
    depth: i8,
    max_depth: i8,
) -> (r: Arrival)
    requires
        probes@.len() == scene@.len(),
        0 <= depth <= max_depth,
    ensures
        r == arrival(scene@, probes@, depth, max_depth),
        depth == max_depth ==> r == Arrival::Nothing,
        nearest(probes@) is None ==> r == Arrival::Nothing,
        forall|k: int|
            depth < max_depth && is_nearest(probes@, k) && scene@[k].color.near_white() ==> r
                == Arrival::Light(scene@[k].color),
        r matches Arrival::Surface { sphere, depth: next } ==> is_nearest(probes@, sphere as int)
            && !scene@[sphere as int].color.near_white() && next == depth + 1 && next
            <= max_depth,
{
    proof {
        lemma_nearest(probes@);
    }
    if depth == max_depth {
        return Arrival::Nothing;
    }
    match nearest_hit(probes) {
        None => Arrival::Nothing,
        Some(k) => {
            let color = scene[k].color;
            if color.is_light() {
                Arrival::Light(color)
            } else {
                Arrival::Surface { sphere: k, depth: depth + 1 }
            }
        },
    }
}

impl Material {
    /// The bounce that a uniform random number `coin` from the unit
    /// interval selects: specular where the coin exceeds the diffuseness,
    /// diffuse otherwise.
    pub open spec fn bounce_for(self, coin: u64) -> Bounce {
        if lt(self.diffuseness, coin) {
            Bounce::Specular
        } else {
            Bounce::Diffuse
        }
    }

    /// Chooses the kind of bounce off this surface.
    pub fn bounce(&self, coin: u64) -> (b: Bounce)
        ensures
            b == self.bounce_for(coin),
    {
        if less_than(self.diffuseness, coin) {
            Bounce::Specular
        } else {
            Bounce::Diffuse
        }
    }
}

/// Whether a number lies in the unit interval, zero included and one
/// excluded, as a uniform random number does.
pub open spec fn in_unit_interval(x: u64) -> bool {
    x < ONE
}

/// A surface of diffuseness zero mirrors: every random number above zero
/// selects the specular bounce.
pub proof fn lemma_mirror_reflects(surface: Material, coin: u64)
    requires
        surface.diffuseness == ZERO,
        positive(coin),
    ensures
        surface.bounce_for(coin) == Bounce::Specular,
{
}

/// A surface of diffuseness one scatters: every random number of the unit
/// interval selects the diffuse bounce.
pub proof fn lemma_matte_scatters(surface: Material, coin: u64)
    requires
        surface.diffuseness == ONE,
        in_unit_interval(coin),
    ensures
        surface.bounce_for(coin) == Bounce::Diffuse,
{
    lemma_order_of_nonnegative(ONE, coin);
}

impl Bounce {
    /// What stands in for the deeper level when it found nothing. A mirror
    /// ray that finds nothing brings no light. A scattered ray that finds
    /// nothing is taken to have reached the sky, which shines white.
    pub open spec fn fallback(self) -> Color {
        match self {
            Bounce::Specular => Color { r: ZERO, g: ZERO, b: ZERO },
            Bounce::Diffuse => Color { r: ONE, g: ONE, b: ONE },
        }
    }

    /// The colour that arrives from the deeper level: its result, or the
    /// fallback of this kind of bounce where it had none.
    pub fn incoming(self, deeper: Option<Color>) -> (c: Color)
        ensures
            c == match deeper {
                Some(found) => found,
                None => self.fallback(),
            },
    {
        match deeper {
            Some(found) => found,
            None => match self {
                Bounce::Specular => Color::black(),
                Bounce::Diffuse => Color::white(),
            },
        }
    }
}

/// The colour that one sample contributes to its pixel: the result of the
/// path from the eye, or black where the path found nothing.
pub fn sample_color(path: Option<Color>) -> (c: Color)
    ensures
        c == match path {
            Some(found) => found,
            None => Color { r: ZERO, g: ZERO, b: ZERO },
        },
{
    match path {
        Some(found) => found,
        None => Color::black(),
    }
}

} // verus!
