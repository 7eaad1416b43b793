use vstd::prelude::*;

verus! {

/// The lobe a scattering direction is drawn from.
#[derive(Debug, Clone, Copy, PartialEq, Eq, Structural)]
pub enum BrdfType {
    Diffuse,
    Specular,
}

/// Ideal diffuse reflection.
#[derive(Debug, Clone, Copy, PartialEq, Eq, Structural)]
pub struct Lambertian {}

impl Lambertian {
    pub fn new() -> (r: Lambertian)
        ensures
            r == (Lambertian {}),
    {
        Lambertian {}
    }
}

/// GGX specular lobe combined with a Lambertian diffuse lobe.
#[derive(Debug, Clone, Copy, PartialEq, Eq, Structural)]
pub struct MicrofacetBrdf {}

impl MicrofacetBrdf {
    pub fn new() -> (r: MicrofacetBrdf)
        ensures
            r == (MicrofacetBrdf {}),
    {
        MicrofacetBrdf {}
    }
}

/// Environment that is black in every direction.
#[derive(Debug, Clone, Copy, PartialEq, Eq, Structural)]
pub struct Black {}

/// Sampler that always draws zero; makes sampling deterministic.
#[derive(Debug, Clone, Copy, PartialEq, Eq, Structural)]
pub struct ZeroSampler();

} // verus!
