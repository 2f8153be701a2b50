use vstd::prelude::*;
use crate::scene::lights_of;

verus! {

/// What the nearest hit of a shadow ray, cast from a surface toward one
/// light, is: whether it is light-flagged, and whether its color is that
/// light's own color.
#[derive(Clone, Copy, Debug, PartialEq, Eq, Structural)]
pub struct ShadowHit {
    pub hit_light: bool,
    pub same_color: bool,
}

/// What one light adds to the color of a surface point.
#[derive(Clone, Copy, Debug, PartialEq, Eq, Structural)]
pub enum Contribution {
    /// The shadow ray hits nothing: the light adds nothing.
    Nothing,
    /// The light is occluded: only the ambient term is added.
    Ambient,
    /// The light is seen: the ambient term and the direct, cosine-weighted term.
    AmbientAndDirect,
}

/// The light is taken as unoccluded when the shadow ray's nearest hit is
/// light-flagged and has the light's color; the color stands in for the
/// identity of the light, so two lights of one color are not told apart.
pub open spec fn contribution_of(shadow_hit: Option<ShadowHit>) -> Contribution {
    match shadow_hit {
        None => Contribution::Nothing,
        Some(h) => if h.hit_light && h.same_color {
            Contribution::AmbientAndDirect
        } else {
            Contribution::Ambient
        },
    }
}

/// The contributions of the lights of a scene, in their order, from the
/// nearest hits of their shadow rays.
pub open spec fn contributions_of(shadow_hits: Seq<Option<ShadowHit>>) -> Seq<Contribution> {
    shadow_hits.map_values(|h: Option<ShadowHit>| contribution_of(h))
}

/// Decides what one light adds to a surface point from the nearest hit of
/// the shadow ray toward it, `None` where that ray hits nothing.
pub fn light_contribution(shadow_hit: Option<ShadowHit>) -> (c: Contribution)
    ensures
        c == contribution_of(shadow_hit),
{
    match shadow_hit {
        None => Contribution::Nothing,
        Some(h) => {
            if h.hit_light && h.same_color {
                Contribution::AmbientAndDirect
            } else {
                Contribution::Ambient
            }
        },
    }
}

/// Decides what each light adds to a surface point; entry `k` of
/// `shadow_hits` belongs to light `k` of the scene.
pub fn light_contributions(shadow_hits: &Vec<Option<ShadowHit>>) -> (r: Vec<Contribution>)
    ensures
        r@ == contributions_of(shadow_hits@),
{
    let mut r: Vec<Contribution> = Vec::new();
    let mut i: usize = 0;
    while i < shadow_hits.len()
        invariant
            0 <= i <= shadow_hits.len(),
            r@ == contributions_of(shadow_hits@.subrange(0, i as int)),
        decreases shadow_hits.len() - i,
    {
        r.push(light_contribution(shadow_hits[i]));
        i = i + 1;
        assert(r@ =~= contributions_of(shadow_hits@.subrange(0, i as int)));
    }
    assert(shadow_hits@.subrange(0, shadow_hits.len() as int) =~= shadow_hits@);
    r
}

/// A scene none of whose objects emits light has no lights, so no surface
/// point receives any contribution: every pixel keeps the black it starts from.
pub proof fn lemma_dark_scene(emits: Seq<bool>, shadow_hits: Seq<Option<ShadowHit>>)
    requires
        forall|j: int| 0 <= j < emits.len() ==> !emits[j],
        shadow_hits.len() == lights_of(emits).len(),
    ensures
        lights_of(emits).len() == 0,
        contributions_of(shadow_hits).len() == 0,
    decreases emits.len(),
{
    if emits.len() > 0 {
        lemma_dark_scene(emits.drop_last(), shadow_hits);
    }
}

} // verus!
