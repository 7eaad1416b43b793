use pathtracer::screen::{pool_size, thread_count};
use pathtracer::{fullscreen_indices, BrdfType, Lambertian, MicrofacetBrdf};

#[test]
fn quad_indices() {
    assert_eq!(fullscreen_indices(), vec![0, 1, 3, 1, 2, 3]);
}

#[test]
fn pool_falls_back_to_four() {
    assert_eq!(thread_count(Some(12)), 12);
    assert_eq!(thread_count(None), 4);
    assert_eq!(pool_size(Some(2), Some(12)), 2);
    assert_eq!(pool_size(None, None), 4);
}

#[test]
fn brdf_constructors() {
    assert_eq!(Lambertian::new(), Lambertian {});
    assert_eq!(MicrofacetBrdf::new(), MicrofacetBrdf {});
    assert_ne!(BrdfType::Diffuse, BrdfType::Specular);
}
