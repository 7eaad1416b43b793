use vstd::prelude::*;

verus! {

/// Vertex indices of the two triangles that cover the screen quad whose
/// corners are numbered top right, bottom right, bottom left, top left.
pub fn fullscreen_indices() -> (r: Vec<u32>)
    ensures
        r@ == seq![0u32, 1, 3, 1, 2, 3],
{
    let r: Vec<u32> = vec![0, 1, 3, 1, 2, 3];
    assert(r@ =~= seq![0u32, 1, 3, 1, 2, 3]);
    r
}

/// Worker threads to start when the hardware parallelism may not be known.
pub const FALLBACK_THREADS: usize = 4;

/// Number of worker threads: the hardware parallelism when it is known,
/// otherwise four.
pub fn thread_count(available: Option<usize>) -> (r: usize)
    ensures
        r == match available {
            Some(n) => n,
            None => FALLBACK_THREADS,
        },
{
    match available {
        Some(n) => n,
        None => FALLBACK_THREADS,
    }
}

/// Size of the worker pool: the requested count, else the thread count.
pub fn pool_size(requested: Option<usize>, available: Option<usize>) -> (r: usize)
    ensures
        r == match requested {
            Some(n) => n,
            None => match available {
                Some(n) => n,
                None => FALLBACK_THREADS,
            },
        },
{
    match requested {
        Some(n) => n,
        None => thread_count(available),
    }
}

} // verus!
