use std::collections::HashMap;
use vstd::prelude::*;

verus! {

broadcast use vstd::std_specs::hash::group_hash_axioms;

/// Corner `c` of triangle `t` read from an index buffer taken three indices
/// at a time; a short last group leaves its missing corners at `missing`.
pub open spec fn corner<T>(vertices: Seq<T>, indices: Seq<u32>, t: int, c: int, missing: T) -> T {
    if 3 * t + c < indices.len() {
        vertices[indices[3 * t + c] as int]
    } else {
        missing
    }
}

/// Builds triangles from an index buffer, three indices each. A last group
/// of one or two indices still makes a triangle, whose missing corners are
/// `missing`.
pub fn assemble_triangles<T: Copy>(vertices: &Vec<T>, indices: &Vec<u32>, missing: T) -> (r: Vec<
    [T; 3],
>)
    requires
        forall|i: int| 0 <= i < indices@.len() ==> (#[trigger] indices@[i]) < vertices@.len(),
    ensures
        r@.len() == (indices@.len() + 2) / 3,
        forall|t: int, c: int|
            0 <= t < r@.len() && 0 <= c < 3 ==> r@[t][c] == #[trigger] corner(
                vertices@,
                indices@,
                t,
                c,
                missing,
            ),
{
    let mut r: Vec<[T; 3]> = Vec::new();
    let n = indices.len();
    let count: usize = n / 3 + if n % 3 > 0 {
        1
    } else {
        0
    };
    assert(count == (n + 2) / 3);
    let mut t: usize = 0;
    while t < count
        invariant
            n == indices@.len(),
            count == (n + 2) / 3,
            t <= count,
            r@.len() == t,
            forall|i: int| 0 <= i < indices@.len() ==> (#[trigger] indices@[i]) < vertices@.len(),
            forall|t2: int, c: int|
                0 <= t2 < r@.len() && 0 <= c < 3 ==> r@[t2][c] == #[trigger] corner(
                    vertices@,
                    indices@,
                    t2,
                    c,
                    missing,
                ),
        decreases count - t,
    {
        let start: usize = 3 * t;
        let mut triangle: [T; 3] = [missing, missing, missing];
        let mut c: usize = 0;
        while c < 3
            invariant
                n == indices@.len(),
                start == 3 * t,
                start < n,
                c <= 3,
                forall|i: int| 0 <= i < indices@.len() ==> (#[trigger] indices@[i]) < vertices@.len(),
                forall|k: int|
                    0 <= k < c ==> triangle[k] == corner(vertices@, indices@, t as int, k, missing),
                forall|k: int| c <= k < 3 ==> triangle[k] == missing,
            decreases 3 - c,
        {
            if c < n - start {
                let index = indices[start + c] as usize;
                triangle[c] = vertices[index];
            }
            c = c + 1;
        }
        r.push(triangle);
        proof {
            assert forall|t2: int, c2: int| 0 <= t2 < r@.len() && 0 <= c2 < 3 implies r@[t2][c2]
                == #[trigger] corner(vertices@, indices@, t2, c2, missing) by {
                if t2 == t {
                    assert(r@[t2] == triangle);
                }
            }
        }
        t = t + 1;
    }
    r
}

/// Slots of the materials built so far, keyed by the asset's material index.
/// Slots are handed out in order of first use.
pub struct MaterialSlots {
    pub cache: HashMap<usize, usize>,
    pub count: usize,
}

impl MaterialSlots {
    /// Every cached slot is below the number of slots handed out.
    pub open spec fn wf(&self) -> bool {
        forall|k: usize| #[trigger] self.cache@.contains_key(k) ==> self.cache@[k] < self.count
    }

    /// No material built yet.
    pub fn new() -> (r: MaterialSlots)
        ensures
            r.wf(),
            r.cache@ == Map::<usize, usize>::empty(),
            r.count == 0,
    {
        MaterialSlots { cache: HashMap::new(), count: 0 }
    }

    /// The slot for the asset material `source`, and whether it is new (the
    /// caller then builds the material into that slot). A primitive without a
    /// material gets slot -1, the stand-in material.
    pub fn slot(&mut self, source: Option<usize>) -> (r: (i32, bool))
        requires
            old(self).wf(),
            old(self).count < i32::MAX,
        ensures
            final(self).wf(),
            match source {
                None => r == (-1i32, false) && *final(self) == *old(self),
                Some(s) => if old(self).cache@.contains_key(s) {
                    r == (old(self).cache@[s] as i32, false) && final(self).cache@ == old(
                        self,
                    ).cache@ && final(self).count == old(self).count
                } else {
                    r == (old(self).count as i32, true) && final(self).cache@ == old(
                        self,
                    ).cache@.insert(s, old(self).count) && final(self).count == old(self).count
                        + 1
                },
            },
    {
        match source {
            None => (-1, false),
            Some(s) => {
                match self.cache.get(&s) {
                    Some(index) => (*index as i32, false),
                    None => {
                        let index = self.count;
                        self.cache.insert(s, index);
                        self.count = index + 1;
                        (index as i32, true)
                    },
                }
            },
        }
    }
}

/// The colours `data` as four channels each, the fourth being `alpha`.
pub fn collect_rgba<T: Copy>(data: &Vec<[T; 3]>, alpha: T) -> (r: Vec<T>)
    requires
        4 * data@.len() <= usize::MAX,
    ensures
        r@.len() == 4 * data@.len(),
        forall|i: int, c: int|
            0 <= i < data@.len() && 0 <= c < 3 ==> r@[4 * i + c] == #[trigger] data@[i][c],
        forall|i: int| 0 <= i < data@.len() ==> #[trigger] r@[4 * i + 3] == alpha,
{
    let mut r: Vec<T> = Vec::new();
    let mut i: usize = 0;
    while i < data.len()
        invariant
            4 * data@.len() <= usize::MAX,
            i <= data@.len(),
            r@.len() == 4 * i,
            forall|j: int, c: int|
                0 <= j < i && 0 <= c < 3 ==> r@[4 * j + c] == #[trigger] data@[j][c],
            forall|j: int| 0 <= j < i ==> #[trigger] r@[4 * j + 3] == alpha,
        decreases data@.len() - i,
    {
        let color = data[i];
        r.push(color[0]);
        r.push(color[1]);
        r.push(color[2]);
        r.push(alpha);
        i = i + 1;
    }
    r
}

} // verus!
